use vstd::prelude::*;
use super::sequence::{Prefix, Read, Send};
use super::terminal::Terminal;

verus! {

/// The sequences of a choice built so far.
#[derive(Debug)]
pub struct Choice {
    pub processes: Vec<Prefix>,
}

impl Choice {
    /// No sequences yet.
    pub fn new() -> (c: Choice)
        ensures
            c.processes@ == Seq::<Prefix>::empty(),
    {
        Choice { processes: Vec::new() }
    }

    /// Ends a sequence with this choice.
    pub fn prefix(self) -> (t: Terminal)
        ensures
            t == Terminal::Choice(self),
    {
        Terminal::Choice(self)
    }

    pub fn add_read(&mut self, read: Read)
        ensures
            final(self).processes@ == old(self).processes@.push(Prefix::Read(read)),
    {
        self.processes.push(Prefix::Read(read));
    }

    pub fn add_send(&mut self, send: Send)
        ensures
            final(self).processes@ == old(self).processes@.push(Prefix::Send(send)),
    {
        self.processes.push(Prefix::Send(send));
    }
}

} // verus!
