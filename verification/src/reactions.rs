//! Reactions whose work is code of the user's: a reader that is handed the
//! names it read, a sender that gives the names to send.
use vstd::prelude::*;
use crate::channel::Channel;
use crate::mods::Mods;
use crate::name::Name;
use crate::processor::NamesView;
use crate::reaction::ReactionView;
use crate::refs::Refs;

verus! {

/// Code that runs when a reader reacts, with the names it read.
pub trait OnRead<V> {
    /// Run with references `refs` and the names read, the code can take the
    /// new reactions `a0` and names `n0` to `a1` and `n1`.  An implementation
    /// says here what its code does; one that says nothing promises nothing.
    open spec fn spec_on_read(
        &self,
        refs: Map<Name, Name>,
        names: Seq<Name>,
        a0: Seq<(Channel, ReactionView<V>)>,
        n0: NamesView<V>,
        a1: Seq<(Channel, ReactionView<V>)>,
        n1: NamesView<V>,
    ) -> bool {
        true
    }

    /// Runs the code.
    fn read(&self, mods: &mut Mods<V>, refs: Refs, names: Vec<Name>)
        ensures
            self.spec_on_read(refs@, names@, old(mods).added(), old(mods).names(), final(mods).added(), final(mods).names()),
    ;
}

/// Code that runs when a sender reacts, and gives the names it sends.
pub trait OnSend<V> {
    /// Run with references `refs`, the code can take the new reactions `a0`
    /// and names `n0` to `a1` and `n1` and send `out`.  An implementation
    /// says here what its code does; one that says nothing promises nothing.
    open spec fn spec_on_send(
        &self,
        refs: Map<Name, Name>,
        a0: Seq<(Channel, ReactionView<V>)>,
        n0: NamesView<V>,
        a1: Seq<(Channel, ReactionView<V>)>,
        n1: NamesView<V>,
        out: Seq<Name>,
    ) -> bool {
        true
    }

    /// Runs the code, and gives the names to send.
    fn send(&self, mods: &mut Mods<V>, refs: Refs) -> (out: Vec<Name>)
        ensures
            self.spec_on_send(refs@, old(mods).added(), old(mods).names(), final(mods).added(), final(mods).names(), out@),
    ;
}

/// A waiting reader.
#[verifier::reject_recursive_types(V)]
pub struct ReadReaction<V> {
    read: Option<Box<dyn OnRead<V>>>,
    refs: Refs,
}

impl<V> ReadReaction<V> {
    #[verifier::type_invariant]
    closed spec fn holds_code(self) -> bool {
        self.read is Some
    }

    /// Its code.
    pub closed spec fn spec_reader(&self) -> Option<Box<dyn OnRead<V>>> {
        self.read
    }

    /// Its references.
    pub closed spec fn spec_refs(&self) -> Map<Name, Name> {
        self.refs@
    }

    pub fn new(read: Box<dyn OnRead<V>>, refs: Refs) -> (r: ReadReaction<V>)
        ensures
            r.spec_reader() == Some(read),
            r.spec_refs() == refs@,
    {
        let held = Some(read);
        ReadReaction { read: held, refs }
    }

    /// Hands its references and the names read to its code.
    pub fn read(self, mods: &mut Mods<V>, names: Vec<Name>)
        ensures
            self.spec_reader() is Some,
            self.spec_reader()->0.spec_on_read(
                self.spec_refs(),
                names@,
                old(mods).added(),
                old(mods).names(),
                final(mods).added(),
                final(mods).names(),
            ),
    {
        proof {
            use_type_invariant(&self);
        }
        let ReadReaction { read, refs } = self;
        match &read {
            Some(code) => code.read(mods, refs, names),
            None => {},
        }
    }
}

/// A waiting sender.
#[verifier::reject_recursive_types(V)]
pub struct SendReaction<V> {
    send: Option<Box<dyn OnSend<V>>>,
    refs: Refs,
}

impl<V> SendReaction<V> {
    #[verifier::type_invariant]
    closed spec fn holds_code(self) -> bool {
        self.send is Some
    }

    /// Its code.
    pub closed spec fn spec_sender(&self) -> Option<Box<dyn OnSend<V>>> {
        self.send
    }

    /// Its references.
    pub closed spec fn spec_refs(&self) -> Map<Name, Name> {
        self.refs@
    }

    pub fn new(send: Box<dyn OnSend<V>>, refs: Refs) -> (s: SendReaction<V>)
        ensures
            s.spec_sender() == Some(send),
            s.spec_refs() == refs@,
    {
        let held = Some(send);
        SendReaction { send: held, refs }
    }

    /// Hands its references to its code, and gives back the names it sends.
    pub fn send(self, mods: &mut Mods<V>) -> (out: Vec<Name>)
        ensures
            self.spec_sender() is Some,
            self.spec_sender()->0.spec_on_send(
                self.spec_refs(),
                old(mods).added(),
                old(mods).names(),
                final(mods).added(),
                final(mods).names(),
                out@,
            ),
    {
        proof {
            use_type_invariant(&self);
        }
        let SendReaction { send, refs } = self;
        match &send {
            Some(code) => code.send(mods, refs),
            None => Vec::new(),
        }
    }
}

} // verus!
