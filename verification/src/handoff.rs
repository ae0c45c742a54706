//! The smallest engine: one reader and one sender, whatever names they
//! wait on; a step hands what the sender gives to the reader.
use vstd::prelude::*;
use crate::name::Name;

verus! {

/// At most one waiting reader and one waiting sender.  A reader takes the
/// names that were sent; a sender gives the names to send.
pub struct Pipl<R: Fn(Vec<Name>), S: Fn() -> Vec<Name>> {
    read: Option<R>,
    send: Option<S>,
}

impl<R: Fn(Vec<Name>), S: Fn() -> Vec<Name>> Pipl<R, S> {
    /// The waiting reader can take any list of names, and the waiting
    /// sender can run.
    #[verifier::type_invariant]
    closed spec fn callable(self) -> bool {
        &&& self.read matches Some(r) ==> forall|names: Vec<Name>| call_requires(r, (names,))
        &&& self.send matches Some(s) ==> call_requires(s, ())
    }

    /// A reader waits.
    pub closed spec fn has_reader(&self) -> bool {
        self.read is Some
    }

    /// A sender waits.
    pub closed spec fn has_sender(&self) -> bool {
        self.send is Some
    }

    /// The waiting reader, when there is one.
    pub closed spec fn reader(&self) -> R {
        self.read->0
    }

    /// The waiting sender, when there is one.
    pub closed spec fn sender(&self) -> S {
        self.send->0
    }

    /// Nothing waits.
    pub fn new() -> (p: Pipl<R, S>)
        ensures
            !p.has_reader(),
            !p.has_sender(),
    {
        Pipl { read: None, send: None }
    }

    /// Makes `fun` the waiting reader, in place of any reader before.
    pub fn read(&mut self, _name: &Name, fun: R)
        requires
            forall|names: Vec<Name>| call_requires(fun, (names,)),
        ensures
            final(self).has_reader(),
            final(self).reader() == fun,
            final(self).has_sender() == old(self).has_sender(),
            final(self).sender() == old(self).sender(),
    {
        proof {
            use_type_invariant(&*self);
        }
        let mut r = Some(fun);
        std::mem::swap(&mut r, &mut self.read);
    }

    /// Makes `fun` the waiting sender, in place of any sender before.
    pub fn send(&mut self, _name: &Name, fun: S)
        requires
            call_requires(fun, ()),
        ensures
            final(self).has_sender(),
            final(self).sender() == fun,
            final(self).has_reader() == old(self).has_reader(),
            final(self).reader() == old(self).reader(),
    {
        proof {
            use_type_invariant(&*self);
        }
        let mut s = Some(fun);
        std::mem::swap(&mut s, &mut self.send);
    }

    /// When a reader and a sender both wait, runs the sender once and then
    /// the reader once with exactly the names the sender gave; neither waits
    /// any more.  Otherwise nothing runs and nothing changes.
    pub fn step(&mut self)
        ensures
            old(self).has_reader() && old(self).has_sender() ==> {
                &&& !final(self).has_reader()
                &&& !final(self).has_sender()
                &&& exists|names: Vec<Name>|
                    call_ensures(old(self).sender(), (), names) && call_ensures(old(self).reader(), (names,), ())
            },
            !(old(self).has_reader() && old(self).has_sender()) ==> {
                &&& final(self).has_reader() == old(self).has_reader()
                &&& final(self).has_sender() == old(self).has_sender()
                &&& final(self).reader() == old(self).reader()
                &&& final(self).sender() == old(self).sender()
            },
    {
        proof {
            use_type_invariant(&*self);
        }
        if self.read.is_some() && self.send.is_some() {
            let mut r: Option<R> = None;
            let mut s: Option<S> = None;
            std::mem::swap(&mut r, &mut self.read);
            std::mem::swap(&mut s, &mut self.send);
            match (r, s) {
                (Some(read), Some(send)) => {
                    let names = send();
                    let ghost sent = names;
                    read(names);
                    assert(call_ensures(old(self).sender(), (), sent) && call_ensures(old(self).reader(), (sent,), ()));
                },
                _ => {},
            }
        }
    }
}

} // verus!
