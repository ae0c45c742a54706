//! Reactions of processes whose names are bound by `Refs`: what a waiting
//! sequence or choice does when it reacts, with the new reactions it makes
//! collected in a `Mods`.
use vstd::prelude::*;
use crate::channel::Channel;
use crate::name::Name;
use crate::prefix::Prefix;
use crate::refs::Refs;

pub mod choice;
pub mod sequence;

pub use self::choice::ChoiceReaction;
pub use self::sequence::SequenceReaction;

verus! {

/// A waiting process: a choice among sequences, or one sequence.
#[verifier::reject_recursive_types(V)]
pub enum Reaction<V> {
    Choice(ChoiceReaction<V>),
    Sequence(SequenceReaction<V>),
}

/// What matters of a reaction: whether it is a choice, its references, and
/// its sequences.
pub type ReactionView<V> = (bool, Map<Name, Name>, Seq<Prefix<V>>);

/// The view of a reaction.
pub open spec fn reaction_view<V>(r: Reaction<V>) -> ReactionView<V> {
    match r {
        Reaction::Choice(c) => (true, c.spec_refs(), c.spec_sequences()),
        Reaction::Sequence(s) => (false, s.spec_refs(), seq![s.spec_prefix()]),
    }
}

/// The channels of `ps`, as written.
pub open spec fn channels_of<V>(ps: Seq<Prefix<V>>) -> Seq<Channel> {
    ps.map_values(|p: Prefix<V>| p.spec_channel())
}

impl<V> Reaction<V> {
    /// A choice among `sequences` under `refs`.
    pub fn new_choice(refs: Refs, sequences: Vec<Prefix<V>>) -> (r: Reaction<V>)
        ensures
            reaction_view(r) == (true, refs@, sequences@),
    {
        Reaction::Choice(ChoiceReaction::new(refs, sequences))
    }

    /// The sequence `sequence` under `refs`.
    pub fn new_sequence(refs: Refs, sequence: Prefix<V>) -> (r: Reaction<V>)
        ensures
            reaction_view(r) == (false, refs@, seq![sequence]),
    {
        Reaction::Sequence(SequenceReaction::new(refs, sequence))
    }

    /// The channels its sequences wait on, as written.
    pub fn channels(&self) -> (v: Vec<Channel>)
        ensures
            v@ == channels_of(reaction_view(*self).2),
    {
        match self {
            Reaction::Choice(c) => c.channels(),
            Reaction::Sequence(s) => {
                let v = s.channels();
                assert(v@ =~= channels_of(seq![s.spec_prefix()]));
                v
            },
        }
    }

    /// Its references.
    pub fn refs(&self) -> (r: &Refs)
        ensures
            r@ == reaction_view(*self).1,
    {
        match self {
            Reaction::Choice(c) => c.refs(),
            Reaction::Sequence(s) => s.refs(),
        }
    }
}

} // verus!
