use vstd::prelude::*;
use super::sequence::{Prefix, Read, Send};
use super::terminal::Terminal;

verus! {

/// The sequences of a parallel built so far.
#[derive(Debug)]
pub struct Parallel {
    pub processes: Vec<Prefix>,
}

impl Parallel {
    /// No sequences yet.
    pub fn new() -> (c: Parallel)
        ensures
            c.processes@ == Seq::<Prefix>::empty(),
    {
        Parallel { processes: Vec::new() }
    }

    /// Ends a sequence with this parallel.
    pub fn prefix(self) -> (t: Terminal)
        ensures
            t == Terminal::Parallel(self),
    {
        Terminal::Parallel(self)
    }

    pub fn add_read(&mut self, read: Read)
        ensures
            final(self).processes@ == old(self).processes@.push(Prefix::Read(read)),
    {
        self.processes.push(Prefix::Read(read));
    }

    pub fn add_send(&mut self, send: Send)
        ensures
            final(self).processes@ == old(self).processes@.push(Prefix::Send(send)),
    {
        self.processes.push(Prefix::Send(send));
    }
}

} // verus!
