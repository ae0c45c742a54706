//! A builder that writes a process from its end back to its start: each
//! `read` or `send` puts a new prefix in front of what was built so far.
use vstd::prelude::*;

pub mod choice;
pub mod parallel;
pub mod sequence;
pub mod terminal;
pub mod text;

pub use self::choice::Choice;
pub use self::parallel::Parallel;
pub use self::sequence::{Prefix, Read, Send, Suffix};
pub use self::terminal::Terminal;

verus! {

/// The processes launched so far.
#[derive(Debug)]
pub struct Builder {
    pub processes: Vec<Prefix>,
}

impl Builder {
    /// No processes.
    pub fn new() -> (b: Builder)
        ensures
            b.processes@ == Seq::<Prefix>::empty(),
    {
        Builder { processes: Vec::new() }
    }

    /// The end of a plain sequence.
    pub fn sequence() -> (t: Terminal)
        ensures
            t is Sequence,
    {
        Terminal::Sequence
    }

    /// An empty choice.
    pub fn choice() -> (c: Choice)
        ensures
            c.processes@ == Seq::<Prefix>::empty(),
    {
        Choice::new()
    }

    /// An empty parallel process.
    pub fn parallel() -> (p: Parallel)
        ensures
            p.processes@ == Seq::<Prefix>::empty(),
    {
        Parallel::new()
    }

    pub fn add_read(&mut self, read: Read)
        ensures
            final(self).processes@ == old(self).processes@.push(Prefix::Read(read)),
    {
        self.processes.push(Prefix::Read(read));
    }

    pub fn add_send(&mut self, send: Send)
        ensures
            final(self).processes@ == old(self).processes@.push(Prefix::Send(send)),
    {
        self.processes.push(Prefix::Send(send));
    }
}

} // verus!
