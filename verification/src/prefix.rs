use vstd::prelude::*;
use std::rc::Rc;
use crate::name::Name;
use crate::call::Call;
use crate::channel::Channel;

verus! {

/// One step of a prefix, in the order the engine runs them.
#[verifier::reject_recursive_types(V)]
pub enum Action<V> {
    /// Put the prefix back after it has reacted.
    Repeat,
    /// Bind these names to fresh names.
    Restrict(Vec<Name>),
    /// The names read or sent.
    Communicate(Vec<Name>),
    /// Code to run after the communication.
    Call(Box<dyn Call<V>>),
    /// Continue with this prefix.
    Prefix(Prefix<V>),
    /// Continue with all of these prefixes.
    Parallel(Vec<Prefix<V>>),
    /// Continue with the first of these prefixes that reacts.
    Choice(Vec<Prefix<V>>),
}

/// Reading or sending.
#[derive(Clone, Copy, Debug, PartialEq, Eq, Structural, Hash)]
pub enum PrefixDirection {
    Read,
    Send,
}

/// A prefix: a read or a send on a name, followed by its actions.  Copies
/// share one body.
#[verifier::reject_recursive_types(V)]
pub struct Prefix<V> {
    inner: Rc<PrefixInner<V>>,
}

/// The body of a prefix.
#[verifier::reject_recursive_types(V)]
pub struct PrefixInner<V> {
    actions: Vec<Action<V>>,
    direction: PrefixDirection,
    name: Name,
}

/// `Rc::clone`: a new pointer to the same allocation, so a value equal to
/// the one cloned.
#[verifier::external_body]
pub(crate) fn rc_clone<T>(r: &Rc<T>) -> (c: Rc<T>)
    ensures
        c == *r,
{
    Rc::clone(r)
}

impl<V> Prefix<V> {
    /// The channel name of the prefix.
    pub closed spec fn pname(&self) -> Name {
        self.inner.name
    }

    /// Whether the prefix reads or sends.
    pub closed spec fn pdir(&self) -> PrefixDirection {
        self.inner.direction
    }

    /// The actions of the prefix.
    pub closed spec fn pactions(&self) -> Seq<Action<V>> {
        self.inner.actions@
    }

    pub fn new(name: Name, direction: PrefixDirection, actions: Vec<Action<V>>) -> (p: Prefix<V>)
        ensures
            p.pname() == name,
            p.pdir() == direction,
            p.pactions() == actions@,
    {
        Prefix { inner: Rc::new(PrefixInner { actions, direction, name }) }
    }

    /// The channel the prefix waits on.
    pub open spec fn spec_channel(&self) -> Channel {
        match self.pdir() {
            PrefixDirection::Read => Channel::Read(self.pname()),
            PrefixDirection::Send => Channel::Send(self.pname()),
        }
    }

    /// The channel the prefix waits on.
    pub fn channel(&self) -> (c: Channel)
        ensures
            c == self.spec_channel(),
    {
        match self.inner.direction {
            PrefixDirection::Read => Channel::Read(self.inner.name),
            PrefixDirection::Send => Channel::Send(self.inner.name),
        }
    }

    #[inline]
    pub fn actions(&self) -> (a: &Vec<Action<V>>)
        ensures
            a@ == self.pactions(),
    {
        &self.inner.actions
    }

    #[inline]
    pub fn direction(&self) -> (d: PrefixDirection)
        ensures
            d == self.pdir(),
    {
        self.inner.direction
    }

    #[inline]
    pub fn name(&self) -> (n: &Name)
        ensures
            *n == self.pname(),
    {
        &self.inner.name
    }
}

impl<V> Clone for Prefix<V> {
    fn clone(&self) -> (p: Self)
        ensures
            p == *self,
    {
        Prefix { inner: rc_clone(&self.inner) }
    }
}

} // verus!
