use vstd::prelude::*;

verus! {

/// An atom: a token on which positive and negative callbacks meet.
#[derive(Debug, PartialEq, Eq, Structural, Hash, Copy, Clone)]
pub struct Atom(usize);

impl Atom {
    /// The number that identifies this atom.
    pub closed spec fn id(self) -> usize {
        self.0
    }

    /// The number that identifies this atom.
    pub fn number(&self) -> (n: usize)
        ensures
            n == self.id(),
    {
        self.0
    }

    /// Two atoms are the same atom exactly when their numbers agree.
    pub proof fn lemma_eq_iff_id(a: Atom, b: Atom)
        ensures
            (a == b) <==> (a.id() == b.id()),
    {
    }
}

/// Hands out atoms, each one numbered one higher than the last.
#[derive(Debug)]
pub struct AtomCreator(usize);

impl AtomCreator {
    /// The number that the next atom will carry.
    pub closed spec fn next_id(&self) -> usize {
        self.0
    }

    /// A creator whose first atom is numbered 0.
    pub fn new() -> (res: AtomCreator)
        ensures
            res.next_id() == 0,
    {
        AtomCreator(0)
    }

    /// Whether another atom can be numbered.
    pub fn has_next(&self) -> (b: bool)
        ensures
            b == (self.next_id() < usize::MAX),
    {
        self.0 < usize::MAX
    }

    /// Returns a fresh atom, numbered one higher than the last.
    pub fn create(&mut self) -> (a: Atom)
        requires
            old(self).next_id() < usize::MAX,
        ensures
            a.id() == old(self).next_id(),
            final(self).next_id() == old(self).next_id() + 1,
    {
        let a = Atom(self.0);
        self.0 = self.0 + 1;
        a
    }

    /// Every atom created from now on differs from every atom created before:
    /// the creator only ever counts upward.
    pub proof fn lemma_create_fresh(c0: AtomCreator, a: Atom, c1: AtomCreator, b: Atom)
        requires
            a.id() == c0.next_id(),
            c1.next_id() == c0.next_id() + 1,
            b.id() >= c1.next_id(),
        ensures
            a != b,
    {
    }
}

} // verus!
