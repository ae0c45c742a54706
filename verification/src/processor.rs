use vstd::prelude::*;
use crate::bindings::{Bindings, bound_name, bind_pairs, lemma_bind_pairs_at};
use crate::call::CallFrame;
use crate::context::CtxView;
use crate::context::store::{ContextStore, StoreView, spec_add};
use crate::name::{Name, NameStore, next_after_n, value_of};
use crate::prefix::{Action, Prefix, PrefixDirection};

verus! {

/// The slot values of a name store and the instance number of its next name.
pub type NamesView<V> = (Seq<Option<V>>, usize);

/// The view of a name store.
pub open spec fn names_view<V>(n: NameStore<V>) -> NamesView<V> {
    (n.values(), n.next_instance())
}

/// The `k` names that a store with `len` slots and next instance `next`
/// makes next with `new_name`.
pub open spec fn fresh_names(len: nat, next: usize, k: nat) -> Seq<Name> {
    Seq::new(k, |i: int| Name((len + i) as usize, next_after_n(next, i as nat)))
}

/// `count` empty slots.
pub open spec fn empty_slots<V>(count: nat) -> Seq<Option<V>> {
    Seq::new(count, |i: int| None::<V>)
}

/// Restricting `list`: each name of the list is bound, in order, to a fresh
/// name in a new empty slot.
pub open spec fn spec_restrict<V>(b: Map<Name, Name>, nv: NamesView<V>, list: Seq<Name>) -> (Map<Name, Name>, NamesView<V>) {
    (
        bind_pairs(b, list, fresh_names(nv.0.len(), nv.1, list.len())),
        (nv.0 + empty_slots(list.len()), next_after_n(nv.1, list.len())),
    )
}

/// The store after adding each of `ps`, in order, as a prefix under `b`.
pub open spec fn spec_add_all<V>(sv: StoreView<V>, b: Map<Name, Name>, ps: Seq<Prefix<V>>) -> StoreView<V>
    decreases ps.len(),
{
    if ps.len() == 0 {
        sv
    } else {
        spec_add(spec_add_all(sv, b, ps.drop_last()), (false, b, seq![ps.last()]))
    }
}

pub open spec fn is_repeat_at<V>(acts: Seq<Action<V>>, i: int) -> bool {
    0 <= i < acts.len() && acts[i] is Repeat
}

pub open spec fn is_call_at<V>(acts: Seq<Action<V>>, i: int) -> bool {
    0 <= i < acts.len() && acts[i] is Call
}

pub open spec fn restrict_at<V>(acts: Seq<Action<V>>, i: int) -> Option<Seq<Name>> {
    if 0 <= i < acts.len() {
        match acts[i] {
            Action::Restrict(l) => Some(l@),
            _ => None,
        }
    } else {
        None
    }
}

pub open spec fn communicate_at<V>(acts: Seq<Action<V>>, i: int) -> Option<Seq<Name>> {
    if 0 <= i < acts.len() {
        match acts[i] {
            Action::Communicate(l) => Some(l@),
            _ => None,
        }
    } else {
        None
    }
}

pub open spec fn prefix_at<V>(acts: Seq<Action<V>>, i: int) -> Option<Prefix<V>> {
    if 0 <= i < acts.len() {
        match acts[i] {
            Action::Prefix(p) => Some(p),
            _ => None,
        }
    } else {
        None
    }
}

pub open spec fn parallel_at<V>(acts: Seq<Action<V>>, i: int) -> Option<Seq<Prefix<V>>> {
    if 0 <= i < acts.len() {
        match acts[i] {
            Action::Parallel(l) => Some(l@),
            _ => None,
        }
    } else {
        None
    }
}

pub open spec fn choice_at<V>(acts: Seq<Action<V>>, i: int) -> Option<Seq<Prefix<V>>> {
    if 0 <= i < acts.len() {
        match acts[i] {
            Action::Choice(l) => Some(l@),
            _ => None,
        }
    } else {
        None
    }
}

/// Where the communication of `p` stands among its actions, if it has one
/// right after the optional repeat and restriction.
pub open spec fn communicate_index<V>(p: Prefix<V>) -> int {
    let acts = p.pactions();
    let i1: int = if is_repeat_at(acts, 0) { 1 } else { 0 };
    if restrict_at(acts, i1) is Some { i1 + 1 } else { i1 }
}

/// The names of the communication of `p`, if it has one right after the
/// optional repeat and restriction.
pub open spec fn head_names<V>(p: Prefix<V>) -> Option<Seq<Name>> {
    communicate_at(p.pactions(), communicate_index(p))
}

/// The first part of a reaction, up to a call: put a repeating prefix back,
/// restrict, then read names into the bindings or take the names to send.
/// Gives the store, bindings and names after it, the names sent, and where
/// in the actions it stopped.
pub open spec fn spec_head<V>(
    sv: StoreView<V>,
    b: Map<Name, Name>,
    nv: NamesView<V>,
    prefix: Prefix<V>,
    read_names: Option<Seq<Name>>,
) -> (StoreView<V>, Map<Name, Name>, NamesView<V>, Option<Seq<Name>>, int) {
    let acts = prefix.pactions();
    let i1: int = if is_repeat_at(acts, 0) { 1 } else { 0 };
    let sv1 = if is_repeat_at(acts, 0) { spec_add(sv, (false, b, seq![prefix])) } else { sv };
    let (b2, nv2) = match restrict_at(acts, i1) {
        Some(l) => spec_restrict(b, nv, l),
        None => (b, nv),
    };
    let i2: int = if restrict_at(acts, i1) is Some { i1 + 1 } else { i1 };
    let (b3, out) = match communicate_at(acts, i2) {
        Some(l) => match prefix.pdir() {
            PrefixDirection::Read => (
                bind_pairs(b2, l, match read_names { Some(r) => r, None => Seq::empty() }),
                None,
            ),
            PrefixDirection::Send => (b2, Some(l.map_values(|k: Name| bound_name(b2, k)))),
        },
        None => (b2, None),
    };
    let i3: int = if communicate_at(acts, i2) is Some { i2 + 1 } else { i2 };
    (sv1, b3, nv2, out, i3)
}

/// The last part of a reaction, from action `i` on: continue with one
/// prefix, or restrict and then continue with a parallel or a choice.
pub open spec fn spec_tail<V>(
    sv: StoreView<V>,
    b: Map<Name, Name>,
    nv: NamesView<V>,
    acts: Seq<Action<V>>,
    i: int,
) -> (StoreView<V>, NamesView<V>) {
    match prefix_at(acts, i) {
        Some(p) => (spec_add(sv, (false, b, seq![p])), nv),
        None => {
            let (b5, nv5) = match restrict_at(acts, i) {
                Some(l) => spec_restrict(b, nv, l),
                None => (b, nv),
            };
            let i5: int = if restrict_at(acts, i) is Some { i + 1 } else { i };
            match parallel_at(acts, i5) {
                Some(ps) => (spec_add_all(sv, b5, ps), nv5),
                None => match choice_at(acts, i5) {
                    Some(ps) => (spec_add(sv, (true, b5, ps)), nv5),
                    None => (sv, nv5),
                },
            }
        },
    }
}

/// The names of an optional list.
pub open spec fn opt_seq(o: Option<Vec<Name>>) -> Option<Seq<Name>> {
    match o {
        Some(v) => Some(v@),
        None => None,
    }
}

/// Action `i` of `acts` is a call that, run on bindings `b0` and names `n0`,
/// can leave bindings `b1` and names `n1`.
pub open spec fn call_runs<V>(
    acts: Seq<Action<V>>,
    i: int,
    b0: Map<Name, Name>,
    n0: NamesView<V>,
    b1: Map<Name, Name>,
    n1: NamesView<V>,
) -> bool {
    0 <= i < acts.len() && match acts[i] {
        Action::Call(c) => c.spec_call(b0, n0, b1, n1),
        _ => false,
    }
}

/// Reacting `prefix` under bindings `b` with `rn` read takes store `sv0` and
/// names `nv0` to `sv1` and `nv1`, and sends `out`.  After a `Call` the rest
/// runs under the bindings and name store that the call left, run on those
/// that the first part of the reaction gave.
pub open spec fn spec_reacts<V>(
    sv0: StoreView<V>,
    nv0: NamesView<V>,
    b: Map<Name, Name>,
    prefix: Prefix<V>,
    rn: Option<Seq<Name>>,
    sv1: StoreView<V>,
    nv1: NamesView<V>,
    out: Option<Seq<Name>>,
) -> bool {
    let (sa, b3, nv2, o, i3) = spec_head(sv0, b, nv0, prefix, rn);
    let acts = prefix.pactions();
    &&& out == o
    &&& if is_call_at(acts, i3) {
        exists|bb: Map<Name, Name>, nv: NamesView<V>|
            #[trigger] call_runs(acts, i3, b3, nv2, bb, nv) && (sv1, nv1) == spec_tail(sa, bb, nv, acts, i3 + 1)
    } else {
        (sv1, nv1) == spec_tail(sa, b3, nv2, acts, i3)
    }
}

/// Restricting binds each name of the list to a name of its own in a new,
/// empty slot: one in no slot that existed before, and different from the
/// names the other names of the list get.
pub proof fn lemma_restrict_fresh<V>(b: Map<Name, Name>, nv: NamesView<V>, list: Seq<Name>, i: int, j: int)
    requires
        0 <= i < list.len(),
        0 <= j < list.len(),
        i != j,
        nv.0.len() + list.len() <= usize::MAX,
        forall|m: int| i < m < list.len() ==> list[m] != list[i],
        forall|m: int| j < m < list.len() ==> list[m] != list[j],
    ensures
        ({
            let (b1, nv1) = spec_restrict(b, nv, list);
            &&& b1[list[i]] == fresh_names(nv.0.len(), nv.1, list.len())[i]
            &&& b1[list[i]].slot() >= nv.0.len()
            &&& value_of(nv1.0, b1[list[i]]) is None
            &&& b1[list[i]] != b1[list[j]]
        }),
{
    let fresh = fresh_names(nv.0.len(), nv.1, list.len());
    lemma_bind_pairs_at(b, list, fresh, i);
    lemma_bind_pairs_at(b, list, fresh, j);
    let (b1, nv1) = spec_restrict(b, nv, list);
    assert(b1[list[i]].slot() == nv.0.len() + i);
    assert(b1[list[j]].slot() == nv.0.len() + j);
    assert(nv1.0[nv.0.len() + i] is None);
}

/// A repeating prefix is put back first, as it was, under the bindings it
/// reacted under, before those change by restriction or communication.
pub proof fn lemma_head_repeats<V>(
    sv: StoreView<V>,
    b: Map<Name, Name>,
    nv: NamesView<V>,
    prefix: Prefix<V>,
    rn: Option<Seq<Name>>,
)
    requires
        is_repeat_at(prefix.pactions(), 0),
    ensures
        spec_head(sv, b, nv, prefix, rn).0 == spec_add(sv, (false, b, seq![prefix])),
{
}

/// A prefix that continues with one prefix adds it, alone, under the
/// bindings of the process, and makes no names.
pub proof fn lemma_tail_continues_prefix<V>(
    sv: StoreView<V>,
    b: Map<Name, Name>,
    nv: NamesView<V>,
    acts: Seq<Action<V>>,
    i: int,
)
    requires
        prefix_at(acts, i) is Some,
    ensures
        spec_tail(sv, b, nv, acts, i) == (spec_add(sv, (false, b, seq![prefix_at(acts, i)->0])), nv),
{
}

/// When a reacting prefix restricts names right before its parallel or
/// choice, the branches are added under bindings in which each restricted
/// name (not repeated later in the list) stands for a name in a new, empty
/// slot, one slot per restricted name.
pub proof fn lemma_tail_restricts_branches<V>(
    sv: StoreView<V>,
    b: Map<Name, Name>,
    nv: NamesView<V>,
    acts: Seq<Action<V>>,
    i: int,
    k: int,
)
    requires
        prefix_at(acts, i) is None,
        restrict_at(acts, i) is Some,
        parallel_at(acts, i + 1) is Some || choice_at(acts, i + 1) is Some,
        0 <= k < restrict_at(acts, i)->0.len(),
        forall|j: int| k < j < restrict_at(acts, i)->0.len() ==> restrict_at(acts, i)->0[j] != restrict_at(acts, i)->0[k],
        nv.0.len() + restrict_at(acts, i)->0.len() <= usize::MAX,
    ensures
        spec_tail(sv, b, nv, acts, i).1.0 == nv.0 + empty_slots::<V>(restrict_at(acts, i)->0.len()),
        exists|b5: Map<Name, Name>| {
            &&& #[trigger] b5.contains_key(restrict_at(acts, i)->0[k])
            &&& b5[restrict_at(acts, i)->0[k]].slot() >= nv.0.len()
            &&& value_of(spec_tail(sv, b, nv, acts, i).1.0, b5[restrict_at(acts, i)->0[k]]) is None
            &&& spec_tail(sv, b, nv, acts, i).0 == match parallel_at(acts, i + 1) {
                Some(ps) => spec_add_all(sv, b5, ps),
                None => spec_add(sv, (true, b5, choice_at(acts, i + 1)->0)),
            }
        },
{
    let l = restrict_at(acts, i)->0;
    let fresh = fresh_names(nv.0.len(), nv.1, l.len());
    let b5 = spec_restrict(b, nv, l).0;
    lemma_bind_pairs_at(b, l, fresh, k);
    assert(b5[l[k]].slot() == nv.0.len() + k);
    assert((nv.0 + empty_slots::<V>(l.len()))[nv.0.len() + k] is None);
}

/// A communication hands the reader what the sender sends: the sender
/// sends what the names of its communication stand for in its bindings, and
/// the reader binds the i-th name of its communication to what the i-th
/// name sent stands for, as far as both lists go (a name that comes again
/// later in the reader's list takes the later value).
pub proof fn lemma_reader_gets_sent<V>(
    sv: StoreView<V>,
    nv: NamesView<V>,
    sb: Map<Name, Name>,
    sender: Prefix<V>,
    sv2: StoreView<V>,
    nv2: NamesView<V>,
    rb: Map<Name, Name>,
    reader: Prefix<V>,
    i: int,
)
    requires
        sender.pdir() == PrefixDirection::Send,
        reader.pdir() == PrefixDirection::Read,
        head_names(sender) is Some,
        head_names(reader) is Some,
        0 <= i < head_names(reader)->0.len(),
        i < head_names(sender)->0.len(),
        forall|j: int|
            i < j < head_names(reader)->0.len() && j < head_names(sender)->0.len() ==> head_names(reader)->0[j]
                != head_names(reader)->0[i],
    ensures
        ({
            let sh = spec_head(sv, sb, nv, sender, None);
            let rh = spec_head(sv2, rb, nv2, reader, sh.3);
            &&& sh.3 == Some(head_names(sender)->0.map_values(|k: Name| bound_name(sh.1, k)))
            &&& rh.1.contains_key(head_names(reader)->0[i])
            &&& rh.1[head_names(reader)->0[i]] == bound_name(sh.1, head_names(sender)->0[i])
        }),
{
    let sh = spec_head(sv, sb, nv, sender, None);
    let l = head_names(sender)->0;
    let k = head_names(reader)->0;
    let out = l.map_values(|x: Name| bound_name(sh.1, x));
    let acts = reader.pactions();
    let i1: int = if is_repeat_at(acts, 0) { 1 } else { 0 };
    let (b2, nv_2) = match restrict_at(acts, i1) {
        Some(lst) => spec_restrict(rb, nv2, lst),
        None => (rb, nv2),
    };
    lemma_bind_pairs_at(b2, k, out, i);
}

/// Binds each of `new_names` to a fresh name in a new empty slot.
pub fn restrict<V>(bindings: &mut Bindings, names: &mut NameStore<V>, new_names: &Vec<Name>)
    ensures
        (final(bindings)@, names_view(*final(names))) == spec_restrict(old(bindings)@, names_view(*old(names)), new_names@),
{
    let ghost b0 = bindings@;
    let ghost len0 = names.values().len();
    let ghost next0 = names.next_instance();
    let ghost fresh = fresh_names(len0, next0, new_names@.len());
    let mut i: usize = 0;
    assert(new_names@.skip(0) =~= new_names@);
    assert(fresh.skip(0) =~= fresh);
    assert(names.values() =~= names.values() + empty_slots::<V>(0));
    while i < new_names.len()
        invariant
            i <= new_names@.len(),
            fresh == fresh_names(len0, next0, new_names@.len()),
            bind_pairs(b0, new_names@, fresh) == bind_pairs(
                bindings@,
                new_names@.skip(i as int),
                fresh.skip(i as int),
            ),
            names.values() == old(names).values() + empty_slots::<V>(i as nat),
            names.values().len() == len0 + i,
            names.next_instance() == next_after_n(next0, i as nat),
            len0 == old(names).values().len(),
            next0 == old(names).next_instance(),
        decreases new_names@.len() - i,
    {
        let n = names.new_name();
        assert(n == fresh[i as int]);
        bindings.set_name(new_names[i], n);
        assert(new_names@.skip(i as int).drop_first() =~= new_names@.skip(i + 1));
        assert(fresh.skip(i as int).drop_first() =~= fresh.skip(i + 1));
        assert(new_names@.skip(i as int)[0] == new_names@[i as int]);
        assert(fresh.skip(i as int)[0] == fresh[i as int]);
        assert(names.values() =~= old(names).values() + empty_slots::<V>((i + 1) as nat));
        i = i + 1;
    }
}

/// Copies of the prefixes, in order.
pub(crate) fn clone_prefixes<V>(list: &Vec<Prefix<V>>) -> (v: Vec<Prefix<V>>)
    ensures
        v@ == list@,
{
    let mut v: Vec<Prefix<V>> = Vec::new();
    let mut i: usize = 0;
    while i < list.len()
        invariant
            i <= list@.len(),
            v@ == list@.subrange(0, i as int),
        decreases list@.len() - i,
    {
        v.push(list[i].clone());
        i = i + 1;
        assert(v@ =~= list@.subrange(0, i as int));
    }
    assert(list@.subrange(0, list@.len() as int) =~= list@);
    v
}

/// Runs the actions of a prefix that has just reacted, adding what comes
/// after it to the store.
#[verifier::reject_recursive_types(V)]
pub struct Processor<V> {
    contexts: ContextStore<V>,
    names: NameStore<V>,
}

impl<V> Processor<V> {
    /// The store the processor adds to.
    pub closed spec fn contexts(&self) -> StoreView<V> {
        self.contexts@
    }

    /// The name store the processor draws fresh names from.
    pub closed spec fn names(&self) -> NamesView<V> {
        names_view(self.names)
    }

    pub closed spec fn wf(&self) -> bool {
        self.contexts.wf()
    }

    pub fn new(contexts: ContextStore<V>, names: NameStore<V>) -> (p: Processor<V>)
        requires
            contexts.wf(),
        ensures
            p.wf(),
            p.contexts() == contexts@,
            p.names() == names_view(names),
    {
        Processor { contexts, names }
    }

    /// Gives back the store and the name store.
    pub fn into_parts(self) -> (r: (ContextStore<V>, NameStore<V>))
        requires
            self.wf(),
        ensures
            r.0.wf(),
            r.0@ == self.contexts(),
            names_view(r.1) == self.names(),
    {
        (self.contexts, self.names)
    }

    fn add_parallel(&mut self, bindings: Bindings, list: &Vec<Prefix<V>>)
        requires
            old(self).wf(),
        ensures
            final(self).wf(),
            final(self).contexts() == spec_add_all(old(self).contexts(), bindings@, list@),
            final(self).names() == old(self).names(),
    {
        let ghost sv0 = self.contexts@;
        let ghost b = bindings@;
        if list.len() > 0 {
            let last = list.len() - 1;
            let mut i: usize = 0;
            assert(list@.take(0) =~= Seq::<Prefix<V>>::empty());
            while i < last
                invariant
                    self.wf(),
                    i <= last,
                    last == list@.len() - 1,
                    bindings@ == b,
                    self.contexts() == spec_add_all(sv0, b, list@.take(i as int)),
                    self.names() == old(self).names(),
                decreases last - i,
            {
                self.contexts.add_prefix(bindings.clone(), list[i].clone());
                assert(list@.take(i + 1).drop_last() =~= list@.take(i as int));
                i = i + 1;
            }
            self.contexts.add_prefix(bindings, list[last].clone());
            assert(list@.take(list@.len() as int).drop_last() =~= list@.take(last as int));
            assert(list@.take(list@.len() as int) =~= list@);
        }
    }

    /// Runs the actions of `prefix`, which has just reacted under `bindings`:
    /// a reader binds the names of its communication to `read_names`, a
    /// sender gives back what its names stand for.  A `Call` changes the
    /// bindings and the name store as its `spec_call` says; what comes after it is then
    /// run under whatever it left.
    pub fn react(&mut self, bindings: Bindings, prefix: Prefix<V>, read_names: Option<Vec<Name>>) -> (r: Option<Vec<Name>>)
        requires
            old(self).wf(),
        ensures
            final(self).wf(),
            spec_reacts(
                old(self).contexts(),
                old(self).names(),
                bindings@,
                prefix,
                opt_seq(read_names),
                final(self).contexts(),
                final(self).names(),
                opt_seq(r),
            ),
    {
        let ghost rn = opt_seq(read_names);
        let ghost head = spec_head(self.contexts@, bindings@, self.names(), prefix, rn);
        let mut bindings = bindings;
        let mut send_names: Option<Vec<Name>> = None;
        let acts = prefix.actions();
        let mut i: usize = 0;
        if i < acts.len() {
            if let Action::Repeat = &acts[i] {
                self.contexts.add_prefix(bindings.clone(), prefix.clone());
                i = i + 1;
            }
        }
        if i < acts.len() {
            if let Action::Restrict(list) = &acts[i] {
                restrict(&mut bindings, &mut self.names, list);
                i = i + 1;
            }
        }
        if i < acts.len() {
            if let Action::Communicate(list) = &acts[i] {
                match prefix.direction() {
                    PrefixDirection::Read => {
                        let values = match read_names {
                            Some(v) => v,
                            None => Vec::new(),
                        };
                        bindings.set_names(list.as_slice(), values);
                    },
                    PrefixDirection::Send => {
                        send_names = Some(bindings.get_names(list.as_slice()));
                    },
                }
                i = i + 1;
            }
        }
        assert(self.contexts@ == head.0);
        assert(bindings@ == head.1);
        assert(self.names() == head.2);
        assert(i == head.4);
        assert(send_names is Some <==> head.3 is Some);
        assert(send_names is Some ==> send_names->0@ == head.3->0);
        if i < acts.len() {
            if let Action::Call(call) = &acts[i] {
                let mut store = NameStore::new();
                std::mem::swap(&mut store, &mut self.names);
                let mut frame = CallFrame::new(bindings, store);
                call.call(&mut frame);
                let (b, n) = frame.into_parts();
                bindings = b;
                self.names = n;
                i = i + 1;
            }
        }
        let ghost b4 = bindings@;
        let ghost nv4 = self.names();
        let ghost sv4 = self.contexts@;
        let mut done = false;
        if i < acts.len() {
            if let Action::Prefix(next) = &acts[i] {
                self.contexts.add_prefix(bindings.clone(), next.clone());
                done = true;
            }
        }
        if !done {
            if i < acts.len() {
                if let Action::Restrict(list) = &acts[i] {
                    restrict(&mut bindings, &mut self.names, list);
                    i = i + 1;
                }
            }
            if i < acts.len() {
                match &acts[i] {
                    Action::Parallel(list) => {
                        self.add_parallel(bindings, list);
                    },
                    Action::Choice(list) => {
                        self.contexts.add_choice(bindings, clone_prefixes(list));
                    },
                    _ => {},
                }
            }
        }
        proof {
            if is_call_at(prefix.pactions(), head.4) {
                assert(call_runs(prefix.pactions(), head.4, head.1, head.2, b4, nv4));
                assert((self.contexts@, self.names()) == spec_tail(head.0, b4, nv4, prefix.pactions(), head.4 + 1));
            } else {
                assert(b4 == head.1);
                assert(nv4 == head.2);
                assert((self.contexts@, self.names()) == spec_tail(head.0, head.1, head.2, prefix.pactions(), head.4));
            }
        }
        send_names
    }
}

} // verus!
