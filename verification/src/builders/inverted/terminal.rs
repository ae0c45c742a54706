use vstd::prelude::*;
use crate::atom::Atom;
use super::choice::Choice;
use super::parallel::Parallel;
use super::sequence::{Read, Send, Suffix};

verus! {

/// How a sequence ends: in a choice, in a parallel process, or with nothing.
#[derive(Debug)]
pub enum Terminal {
    Choice(Choice),
    Parallel(Parallel),
    Sequence,
}

impl Terminal {
    /// A read on `atom` followed by this end.
    pub fn read(self, atom: Atom) -> (r: Read)
        ensures
            r == Read(atom, Suffix::Terminal(self)),
    {
        Read(atom, Suffix::Terminal(self))
    }

    /// A send on `atom` followed by this end.
    pub fn send(self, atom: Atom) -> (s: Send)
        ensures
            s == Send(atom, Suffix::Terminal(self)),
    {
        Send(atom, Suffix::Terminal(self))
    }
}

} // verus!
