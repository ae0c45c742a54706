use vstd::prelude::*;
use crate::channel::Channel;
use crate::prefix::Prefix;
use crate::reaction::channels_of;
use crate::reaction::sequence::{SequenceReaction, translated};
use crate::refs::Refs;

verus! {

/// A choice among sequences, under one set of references.
#[verifier::reject_recursive_types(V)]
pub struct ChoiceReaction<V> {
    refs: Refs,
    sequences: Vec<Prefix<V>>,
}

impl<V> ChoiceReaction<V> {
    pub closed spec fn spec_refs(&self) -> Map<crate::name::Name, crate::name::Name> {
        self.refs@
    }

    pub closed spec fn spec_sequences(&self) -> Seq<Prefix<V>> {
        self.sequences@
    }

    pub fn new(refs: Refs, sequences: Vec<Prefix<V>>) -> (c: ChoiceReaction<V>)
        ensures
            c.spec_refs() == refs@,
            c.spec_sequences() == sequences@,
    {
        ChoiceReaction { refs: refs, sequences: sequences }
    }

    /// The channels the sequences wait on, as written.
    pub fn channels(&self) -> (v: Vec<Channel>)
        ensures
            v@ == channels_of(self.spec_sequences()),
    {
        let mut v: Vec<Channel> = Vec::new();
        let mut i: usize = 0;
        while i < self.sequences.len()
            invariant
                i <= self.sequences@.len(),
                v@ == channels_of(self.sequences@.subrange(0, i as int)),
            decreases self.sequences@.len() - i,
        {
            v.push(self.sequences[i].channel());
            i = i + 1;
            assert(v@ =~= channels_of(self.sequences@.subrange(0, i as int)));
        }
        assert(self.sequences@.subrange(0, self.sequences@.len() as int) =~= self.sequences@);
        v
    }

    /// The sequence that reacts on `channel`: the first whose channel, with
    /// its name taken through the references, is `channel`.
    pub fn collapse(self, channel: &Channel) -> (s: SequenceReaction<V>)
        requires
            exists|i: int| 0 <= i < self.spec_sequences().len() && translated(#[trigger] self.spec_sequences()[i], self.spec_refs()) == *channel,
        ensures
            s.spec_refs() == self.spec_refs(),
            exists|i: int| {
                &&& 0 <= i < self.spec_sequences().len()
                &&& translated(self.spec_sequences()[i], self.spec_refs()) == *channel
                &&& (forall|j: int| 0 <= j < i ==> translated(#[trigger] self.spec_sequences()[j], self.spec_refs()) != *channel)
                &&& s.spec_prefix() == self.spec_sequences()[i]
            },
    {
        let ChoiceReaction { refs, sequences } = self;
        let mut i: usize = 0;
        while i < sequences.len()
            invariant
                i <= sequences@.len(),
                sequences@ == self.spec_sequences(),
                refs@ == self.spec_refs(),
                forall|j: int| 0 <= j < i ==> translated(#[trigger] sequences@[j], refs@) != *channel,
            decreases sequences@.len() - i,
        {
            let c = sequences[i].channel();
            let t = c.clone_with(refs.get(c.name()));
            if t == *channel {
                let p = sequences[i].clone();
                return SequenceReaction::new(refs, p);
            }
            i = i + 1;
        }
        proof {
            let k = choose|k: int| 0 <= k < sequences@.len() && translated(#[trigger] sequences@[k], refs@) == *channel;
            assert(translated(sequences@[k], refs@) != *channel);
        }
        vstd::pervasive::unreached()
    }

    #[inline]
    pub fn refs(&self) -> (r: &Refs)
        ensures
            r@ == self.spec_refs(),
    {
        &self.refs
    }
}

} // verus!
