use vstd::prelude::*;
use crate::bindings::{bound_name, bind_pairs, lemma_bind_pairs_at};
use crate::channel::Channel;
use crate::mods::{Mods, dup_names, sequence_entries, choice_entries};
use crate::name::{Name, copy_names, next_after_n};
use crate::prefix::{Action, Prefix, PrefixDirection};
use crate::processor::{
    NamesView, is_repeat_at, is_call_at, restrict_at, communicate_at, prefix_at, parallel_at,
    choice_at, opt_seq, clone_prefixes, communicate_index, call_runs, head_names,
};
use crate::reaction::ReactionView;
use crate::refs::Refs;

verus! {

/// The channel `p` waits on, with its name taken through references `m`.
pub open spec fn translated<V>(p: Prefix<V>, m: Map<Name, Name>) -> Channel {
    p.spec_channel().spec_clone_with(bound_name(m, p.pname()))
}

/// An entry of the new reactions: a sequence `p` under references `m`.
pub open spec fn sequence_entry<V>(p: Prefix<V>, m: Map<Name, Name>) -> (Channel, ReactionView<V>) {
    (translated(p, m), (false, m, seq![p]))
}

/// Restricting `list` under references `m`: each name of the list is
/// pointed, in order, to a new instance of its own slot.
pub open spec fn spec_dup_restrict<V>(m: Map<Name, Name>, nv: NamesView<V>, list: Seq<Name>) -> (Map<Name, Name>, NamesView<V>) {
    (bind_pairs(m, list, dup_names(list, nv.1)), (nv.0, next_after_n(nv.1, list.len())))
}

/// Whether reacting `p` binds names that were read.
pub open spec fn reads_names<V>(p: Prefix<V>) -> bool {
    communicate_at(p.pactions(), communicate_index(p)) is Some && p.pdir() == PrefixDirection::Read
}

/// The first part of a reaction of `prefix` under references `m`, up to a
/// call: put a repeating prefix back, restrict, then read names into the
/// references or take the names to send.  Gives the new reactions,
/// references and names after it, the names sent, and where it stopped.
pub open spec fn spec_seq_head<V>(
    added: Seq<(Channel, ReactionView<V>)>,
    m: Map<Name, Name>,
    nv: NamesView<V>,
    prefix: Prefix<V>,
    read_names: Option<Seq<Name>>,
) -> (Seq<(Channel, ReactionView<V>)>, Map<Name, Name>, NamesView<V>, Option<Seq<Name>>, int) {
    let acts = prefix.pactions();
    let i1: int = if is_repeat_at(acts, 0) { 1 } else { 0 };
    let a1 = if is_repeat_at(acts, 0) { added.push(sequence_entry(prefix, m)) } else { added };
    let (m2, nv2) = match restrict_at(acts, i1) {
        Some(l) => spec_dup_restrict(m, nv, l),
        None => (m, nv),
    };
    let i2 = communicate_index(prefix);
    let (m3, out) = match communicate_at(acts, i2) {
        Some(l) => match prefix.pdir() {
            PrefixDirection::Read => (bind_pairs(m2, l, read_names->0), None),
            PrefixDirection::Send => (m2, Some(l.map_values(|k: Name| bound_name(m2, k)))),
        },
        None => (m2, None),
    };
    let i3: int = if communicate_at(acts, i2) is Some { i2 + 1 } else { i2 };
    (a1, m3, nv2, out, i3)
}

/// A reading sequence binds each name of its communication to the name
/// read at the same place, as far as both lists go (a name that comes again
/// later in the list takes the later one), and sends nothing.
pub proof fn lemma_seq_reader_binds_read<V>(
    a0: Seq<(Channel, ReactionView<V>)>,
    m: Map<Name, Name>,
    nv: NamesView<V>,
    prefix: Prefix<V>,
    rn: Seq<Name>,
    i: int,
)
    requires
        prefix.pdir() == PrefixDirection::Read,
        head_names(prefix) is Some,
        0 <= i < head_names(prefix)->0.len(),
        i < rn.len(),
        forall|j: int|
            i < j < head_names(prefix)->0.len() && j < rn.len() ==> head_names(prefix)->0[j] != head_names(prefix)->0[i],
    ensures
        ({
            let h = spec_seq_head(a0, m, nv, prefix, Some(rn));
            let l = head_names(prefix)->0;
            &&& h.1.contains_key(l[i])
            &&& h.1[l[i]] == rn[i]
            &&& h.3 is None
        }),
{
    let acts = prefix.pactions();
    let i1: int = if is_repeat_at(acts, 0) { 1 } else { 0 };
    let (m2, nv2) = match restrict_at(acts, i1) {
        Some(l) => spec_dup_restrict(m, nv, l),
        None => (m, nv),
    };
    lemma_bind_pairs_at(m2, head_names(prefix)->0, rn, i);
}

/// A sending sequence sends, for each name of its communication in order,
/// the name it stands for in the references it reacts under, and keeps
/// those references.
pub proof fn lemma_seq_sender_sends_bound<V>(
    a0: Seq<(Channel, ReactionView<V>)>,
    m: Map<Name, Name>,
    nv: NamesView<V>,
    prefix: Prefix<V>,
    i: int,
)
    requires
        prefix.pdir() == PrefixDirection::Send,
        head_names(prefix) is Some,
        0 <= i < head_names(prefix)->0.len(),
    ensures
        ({
            let h = spec_seq_head(a0, m, nv, prefix, None);
            let l = head_names(prefix)->0;
            &&& h.3 is Some
            &&& h.3->0.len() == l.len()
            &&& h.3->0[i] == bound_name(h.1, l[i])
        }),
{
}

/// A repeating sequence is added back first, as it was, under the
/// references it reacted under and on its channel taken through them.
pub proof fn lemma_seq_head_repeats<V>(
    a0: Seq<(Channel, ReactionView<V>)>,
    m: Map<Name, Name>,
    nv: NamesView<V>,
    prefix: Prefix<V>,
    rn: Option<Seq<Name>>,
)
    requires
        is_repeat_at(prefix.pactions(), 0),
    ensures
        ({
            let a1 = spec_seq_head(a0, m, nv, prefix, rn).0;
            &&& a1.len() == a0.len() + 1
            &&& a1.subrange(0, a0.len() as int) == a0
            &&& a1[a0.len() as int].0.spec_name() == bound_name(m, prefix.pname())
            &&& (a1[a0.len() as int].0 is Read) <==> (prefix.pdir() == PrefixDirection::Read)
            &&& a1[a0.len() as int].1 == (false, m, seq![prefix])
        }),
{
    let a1 = spec_seq_head(a0, m, nv, prefix, rn).0;
    assert(a1.subrange(0, a0.len() as int) =~= a0);
}

/// A sequence that continues with one prefix adds it, alone, under the
/// references it has and on its channel taken through them, and makes no
/// names.
pub proof fn lemma_seq_tail_continues_prefix<V>(
    added: Seq<(Channel, ReactionView<V>)>,
    m: Map<Name, Name>,
    nv: NamesView<V>,
    acts: Seq<Action<V>>,
    i: int,
)
    requires
        prefix_at(acts, i) is Some,
    ensures
        ({
            let (a1, nv1) = spec_seq_tail(added, m, nv, acts, i);
            let p = prefix_at(acts, i)->0;
            &&& nv1 == nv
            &&& a1.len() == added.len() + 1
            &&& a1.subrange(0, added.len() as int) == added
            &&& a1[added.len() as int].0.spec_name() == bound_name(m, p.pname())
            &&& (a1[added.len() as int].0 is Read) <==> (p.pdir() == PrefixDirection::Read)
            &&& a1[added.len() as int].1 == (false, m, seq![p])
        }),
{
    let a1 = spec_seq_tail(added, m, nv, acts, i).0;
    assert(a1.subrange(0, added.len() as int) =~= added);
}

/// When a reacting sequence restricts names right before its parallel or
/// choice, the branches run under references in which each restricted name
/// (not repeated later in the list) stands for a new instance of its own
/// slot, one the store had not made before.
pub proof fn lemma_seq_tail_restricts_branches<V>(
    added: Seq<(Channel, ReactionView<V>)>,
    m: Map<Name, Name>,
    nv: NamesView<V>,
    acts: Seq<Action<V>>,
    i: int,
    k: int,
)
    requires
        prefix_at(acts, i) is None,
        restrict_at(acts, i) is Some,
        parallel_at(acts, i + 1) is Some || choice_at(acts, i + 1) is Some,
        0 <= k < restrict_at(acts, i)->0.len(),
        forall|j: int| k < j < restrict_at(acts, i)->0.len() ==> restrict_at(acts, i)->0[j] != restrict_at(acts, i)->0[k],
        nv.1 + restrict_at(acts, i)->0.len() <= usize::MAX,
    ensures
        exists|m5: Map<Name, Name>| {
            &&& #[trigger] m5.contains_key(restrict_at(acts, i)->0[k])
            &&& m5[restrict_at(acts, i)->0[k]].slot() == restrict_at(acts, i)->0[k].slot()
            &&& m5[restrict_at(acts, i)->0[k]].instance() >= nv.1
            &&& spec_seq_tail(added, m, nv, acts, i).0 == match parallel_at(acts, i + 1) {
                Some(ps) => added + sequence_entries(ps, m5),
                None => added + choice_entries(choice_at(acts, i + 1)->0, m5),
            }
        },
{
    let l = restrict_at(acts, i)->0;
    let m5 = spec_dup_restrict(m, nv, l).0;
    lemma_bind_pairs_at(m, l, dup_names(l, nv.1), k);
    assert(m5[l[k]].slot() == l[k].slot());
}

/// The last part of a reaction, from action `i` on: continue with one
/// prefix, or restrict and then continue with a parallel or a choice.
pub open spec fn spec_seq_tail<V>(
    added: Seq<(Channel, ReactionView<V>)>,
    m: Map<Name, Name>,
    nv: NamesView<V>,
    acts: Seq<Action<V>>,
    i: int,
) -> (Seq<(Channel, ReactionView<V>)>, NamesView<V>) {
    match prefix_at(acts, i) {
        Some(p) => (added.push(sequence_entry(p, m)), nv),
        None => {
            let (m5, nv5) = match restrict_at(acts, i) {
                Some(l) => spec_dup_restrict(m, nv, l),
                None => (m, nv),
            };
            let i5: int = if restrict_at(acts, i) is Some { i + 1 } else { i };
            match parallel_at(acts, i5) {
                Some(ps) => (added + sequence_entries(ps, m5), nv5),
                None => match choice_at(acts, i5) {
                    Some(ps) => (added + choice_entries(ps, m5), nv5),
                    None => (added, nv5),
                },
            }
        },
    }
}

/// Reacting `prefix` under references `m` with `rn` read takes the new
/// reactions `a0` and names `nv0` to `a1` and `nv1`, and sends `out`.  After
/// a `Call` the rest runs under the references and name store that the call
/// left, run on those that the first part of the reaction gave.
pub open spec fn spec_seq_reacts<V>(
    a0: Seq<(Channel, ReactionView<V>)>,
    nv0: NamesView<V>,
    m: Map<Name, Name>,
    prefix: Prefix<V>,
    rn: Option<Seq<Name>>,
    a1: Seq<(Channel, ReactionView<V>)>,
    nv1: NamesView<V>,
    out: Option<Seq<Name>>,
) -> bool {
    let (aa, m3, nv2, o, i3) = spec_seq_head(a0, m, nv0, prefix, rn);
    let acts = prefix.pactions();
    &&& out == o
    &&& if is_call_at(acts, i3) {
        exists|mm: Map<Name, Name>, nv: NamesView<V>|
            #[trigger] call_runs(acts, i3, m3, nv2, mm, nv) && (a1, nv1) == spec_seq_tail(aa, mm, nv, acts, i3 + 1)
    } else {
        (a1, nv1) == spec_seq_tail(aa, m3, nv2, acts, i3)
    }
}

/// One sequence waiting to react, with its references.
#[verifier::reject_recursive_types(V)]
pub struct SequenceReaction<V> {
    refs: Refs,
    prefix: Prefix<V>,
}

impl<V> SequenceReaction<V> {
    pub closed spec fn spec_refs(&self) -> Map<Name, Name> {
        self.refs@
    }

    pub closed spec fn spec_prefix(&self) -> Prefix<V> {
        self.prefix
    }

    pub fn new(refs: Refs, prefix: Prefix<V>) -> (s: SequenceReaction<V>)
        ensures
            s.spec_refs() == refs@,
            s.spec_prefix() == prefix,
    {
        SequenceReaction { refs: refs, prefix: prefix }
    }

    /// The channel the sequence waits on, as written.
    pub fn channels(&self) -> (v: Vec<Channel>)
        ensures
            v@ == seq![self.spec_prefix().spec_channel()],
    {
        let mut v: Vec<Channel> = Vec::new();
        v.push(self.prefix.channel());
        v
    }

    /// Reacts as the reader of a communication that carried `names`.
    pub fn read(self, mods: &mut Mods<V>, names: Vec<Name>)
        ensures
            exists|o: Option<Seq<Name>>|
                spec_seq_reacts(
                    old(mods).added(),
                    old(mods).names(),
                    self.spec_refs(),
                    self.spec_prefix(),
                    Some(names@),
                    final(mods).added(),
                    final(mods).names(),
                    o,
                ),
    {
        let ghost a0 = mods.added();
        let ghost nv0 = mods.names();
        let ghost rn = Some(names@);
        let SequenceReaction { refs, prefix } = self;
        let ghost m = refs@;
        let out = Self::react(mods, refs, prefix, Some(names));
        assert(spec_seq_reacts(a0, nv0, m, prefix, rn, mods.added(), mods.names(), opt_seq(out)));
        assert(a0 == old(mods).added());
        assert(m == self.spec_refs());
        assert(prefix == self.spec_prefix());
    }

    /// Reacts as the sender of a communication, and gives back the names
    /// sent: none if the prefix sends nothing.
    pub fn send(self, mods: &mut Mods<V>) -> (r: Vec<Name>)
        requires
            !reads_names(self.spec_prefix()),
        ensures
            exists|o: Option<Seq<Name>>|
                spec_seq_reacts(
                    old(mods).added(),
                    old(mods).names(),
                    self.spec_refs(),
                    self.spec_prefix(),
                    None,
                    final(mods).added(),
                    final(mods).names(),
                    o,
                ) && r@ == match o {
                    Some(l) => l,
                    None => Seq::<Name>::empty(),
                },
    {
        let ghost a0 = mods.added();
        let ghost nv0 = mods.names();
        let SequenceReaction { refs, prefix } = self;
        let ghost m = refs@;
        let out = Self::react(mods, refs, prefix, None);
        let ghost o = opt_seq(out);
        assert(spec_seq_reacts(a0, nv0, m, prefix, None, mods.added(), mods.names(), o));
        assert(a0 == old(mods).added());
        assert(m == self.spec_refs());
        assert(prefix == self.spec_prefix());
        let r = match out {
            Some(v) => v,
            None => Vec::new(),
        };
        assert(r@ == match o {
            Some(l) => l,
            None => Seq::<Name>::empty(),
        });
        r
    }

    fn react(mods: &mut Mods<V>, refs: Refs, prefix: Prefix<V>, read_names: Option<Vec<Name>>) -> (r: Option<Vec<Name>>)
        requires
            reads_names(prefix) ==> read_names is Some,
        ensures
            spec_seq_reacts(
                old(mods).added(),
                old(mods).names(),
                refs@,
                prefix,
                opt_seq(read_names),
                final(mods).added(),
                final(mods).names(),
                opt_seq(r),
            ),
    {
        let ghost rn = opt_seq(read_names);
        let ghost head = spec_seq_head(mods.added(), refs@, mods.names(), prefix, rn);
        let mut refs = refs;
        let mut send_names: Option<Vec<Name>> = None;
        let acts = prefix.actions();
        let mut i: usize = 0;
        if i < acts.len() {
            if let Action::Repeat = &acts[i] {
                mods.add_sequence(refs.clone(), prefix.clone());
                i = i + 1;
            }
        }
        if i < acts.len() {
            if let Action::Restrict(list) = &acts[i] {
                mods.new_names(&mut refs, list.as_slice());
                i = i + 1;
            }
        }
        if i < acts.len() {
            if let Action::Communicate(list) = &acts[i] {
                match prefix.direction() {
                    PrefixDirection::Read => {
                        let values = match read_names {
                            Some(v) => v,
                            None => Vec::new(),
                        };
                        refs.set_names(copy_names(list), values);
                    },
                    PrefixDirection::Send => {
                        send_names = Some(refs.get_names(list.as_slice()));
                    },
                }
                i = i + 1;
            }
        }
        assert(mods.added() == head.0);
        assert(refs@ == head.1);
        assert(mods.names() == head.2);
        assert(i == head.4);
        assert(send_names is Some <==> head.3 is Some);
        assert(send_names is Some ==> send_names->0@ == head.3->0);
        if i < acts.len() {
            if let Action::Call(call) = &acts[i] {
                mods.run_call(call, &mut refs);
                i = i + 1;
            }
        }
        let ghost m4 = refs@;
        let ghost nv4 = mods.names();
        let ghost a4 = mods.added();
        let mut done = false;
        if i < acts.len() {
            if let Action::Prefix(next) = &acts[i] {
                mods.add_sequence(refs.clone(), next.clone());
                done = true;
            }
        }
        if !done {
            if i < acts.len() {
                if let Action::Restrict(list) = &acts[i] {
                    mods.new_names(&mut refs, list.as_slice());
                    i = i + 1;
                }
            }
            if i < acts.len() {
                match &acts[i] {
                    Action::Parallel(list) => {
                        mods.add_parallel(refs, clone_prefixes(list));
                    },
                    Action::Choice(list) => {
                        mods.add_choice(refs, clone_prefixes(list));
                    },
                    _ => {},
                }
            }
        }
        proof {
            if is_call_at(prefix.pactions(), head.4) {
                assert(call_runs(prefix.pactions(), head.4, head.1, head.2, m4, nv4));
                assert((mods.added(), mods.names()) == spec_seq_tail(head.0, m4, nv4, prefix.pactions(), head.4 + 1));
            } else {
                assert(m4 == head.1);
                assert(nv4 == head.2);
                assert((mods.added(), mods.names()) == spec_seq_tail(head.0, head.1, head.2, prefix.pactions(), head.4));
            }
        }
        send_names
    }

    #[inline]
    pub fn refs(&self) -> (r: &Refs)
        ensures
            r@ == self.spec_refs(),
    {
        &self.refs
    }
}

} // verus!
