use vstd::prelude::*;
use crate::atom::Atom;
use super::Builder;
use super::choice::Choice;
use super::parallel::Parallel;
use super::terminal::Terminal;

verus! {

/// The first prefix of a sequence.
#[derive(Debug)]
pub enum Prefix {
    Read(Read),
    Send(Send),
}

/// What follows a prefix.
#[derive(Debug)]
pub enum Suffix {
    Read(Box<Read>),
    Send(Box<Send>),
    Terminal(Terminal),
}

/// A read on an atom, followed by its suffix.
#[derive(Debug)]
pub struct Read(pub Atom, pub Suffix);

/// A send on an atom, followed by its suffix.
#[derive(Debug)]
pub struct Send(pub Atom, pub Suffix);

impl Read {
    /// A read on `atom` in front of this read.
    pub fn read(self, atom: Atom) -> (r: Read)
        ensures
            r == Read(atom, Suffix::Read(Box::new(self))),
    {
        Read(atom, Suffix::Read(Box::new(self)))
    }

    /// A send on `atom` in front of this read.
    pub fn send(self, atom: Atom) -> (s: Send)
        ensures
            s == Send(atom, Suffix::Read(Box::new(self))),
    {
        Send(atom, Suffix::Read(Box::new(self)))
    }

    /// Makes this sequence one branch of `choice`.
    pub fn choice(self, choice: &mut Choice)
        ensures
            final(choice).processes@ == old(choice).processes@.push(Prefix::Read(self)),
    {
        choice.add_read(self)
    }

    /// Launches this sequence as a process of `pipl`.
    pub fn launch(self, pipl: &mut Builder)
        ensures
            final(pipl).processes@ == old(pipl).processes@.push(Prefix::Read(self)),
    {
        pipl.add_read(self);
    }

    /// Makes this sequence one branch of `parallel`.
    pub fn parallel(self, parallel: &mut Parallel)
        ensures
            final(parallel).processes@ == old(parallel).processes@.push(Prefix::Read(self)),
    {
        parallel.add_read(self);
    }
}

impl Send {
    /// A read on `atom` in front of this send.
    pub fn read(self, atom: Atom) -> (r: Read)
        ensures
            r == Read(atom, Suffix::Send(Box::new(self))),
    {
        Read(atom, Suffix::Send(Box::new(self)))
    }

    /// A send on `atom` in front of this send.
    pub fn send(self, atom: Atom) -> (s: Send)
        ensures
            s == Send(atom, Suffix::Send(Box::new(self))),
    {
        Send(atom, Suffix::Send(Box::new(self)))
    }

    /// Makes this sequence one branch of `choice`.
    pub fn choice(self, choice: &mut Choice)
        ensures
            final(choice).processes@ == old(choice).processes@.push(Prefix::Send(self)),
    {
        choice.add_send(self)
    }

    /// Launches this sequence as a process of `pipl`.
    pub fn launch(self, pipl: &mut Builder)
        ensures
            final(pipl).processes@ == old(pipl).processes@.push(Prefix::Send(self)),
    {
        pipl.add_send(self);
    }

    /// Makes this sequence one branch of `parallel`.
    pub fn parallel(self, parallel: &mut Parallel)
        ensures
            final(parallel).processes@ == old(parallel).processes@.push(Prefix::Send(self)),
    {
        parallel.add_send(self)
    }
}

} // verus!
