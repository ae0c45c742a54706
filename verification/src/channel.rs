use vstd::prelude::*;
use crate::name::Name;

verus! {

/// One end of a communication: reading on a name, or sending on it.
#[derive(Debug, Clone, Copy, PartialEq, Eq, Structural, Hash)]
pub enum Channel {
    Read(Name),
    Send(Name),
}

impl Channel {
    /// The reading end on `name`.
    pub fn read(name: Name) -> (c: Channel)
        ensures
            c == Channel::Read(name),
    {
        Channel::Read(name)
    }

    /// The sending end on `name`.
    pub fn send(name: Name) -> (c: Channel)
        ensures
            c == Channel::Send(name),
    {
        Channel::Send(name)
    }

    /// The name of this end.
    pub open spec fn spec_name(self) -> Name {
        match self {
            Channel::Read(n) => n,
            Channel::Send(n) => n,
        }
    }

    /// The end of the same kind as `self` on `name`.
    pub open spec fn spec_clone_with(self, name: Name) -> Channel {
        match self {
            Channel::Read(_) => Channel::Read(name),
            Channel::Send(_) => Channel::Send(name),
        }
    }

    /// The opposite end on the same name.
    pub open spec fn spec_invert(self) -> Channel {
        match self {
            Channel::Read(n) => Channel::Send(n),
            Channel::Send(n) => Channel::Read(n),
        }
    }

    /// The end of the same kind on `name`.
    pub fn clone_with(&self, name: Name) -> (c: Channel)
        ensures
            c == self.spec_clone_with(name),
    {
        match self {
            Channel::Read(_) => Self::read(name),
            Channel::Send(_) => Self::send(name),
        }
    }

    /// The opposite end on the same name.
    pub fn invert(&self) -> (c: Channel)
        ensures
            c == self.spec_invert(),
    {
        match self {
            Channel::Read(name) => Self::send(*name),
            Channel::Send(name) => Self::read(*name),
        }
    }

    /// The name of this end.
    pub fn name(&self) -> (n: &Name)
        ensures
            *n == self.spec_name(),
    {
        match self {
            Channel::Read(name) => name,
            Channel::Send(name) => name,
        }
    }
}

/// Inverting twice gives the end back; inverting keeps the name and always
/// changes the kind.
pub proof fn lemma_invert(c: Channel)
    ensures
        c.spec_invert().spec_invert() == c,
        c.spec_invert().spec_name() == c.spec_name(),
        c.spec_invert() != c,
{
}

/// `clone_with` keeps the kind and takes the given name; on the end's own
/// name it gives the end back.
pub proof fn lemma_clone_with(c: Channel, n: Name)
    ensures
        c.spec_clone_with(n).spec_name() == n,
        (c.spec_clone_with(n) is Read) == (c is Read),
        c.spec_clone_with(c.spec_name()) == c,
        c.spec_clone_with(n).spec_invert() == c.spec_invert().spec_clone_with(n),
{
}

} // verus!
