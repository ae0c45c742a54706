use vstd::prelude::*;
use crate::atom::{Atom, AtomCreator};

verus! {

/// A reaction waiting on an atom: the atom, whether it is positive, and the
/// key under which the caller keeps the reaction's code.
#[derive(Debug, Clone, Copy, PartialEq, Eq, Structural)]
pub struct PiplAtom {
    pub atom: Atom,
    pub positive: bool,
    pub key: usize,
}

/// Two reactions that meet: the caller runs the positive one first, then
/// the negative one with the atoms the positive one handed over.
#[derive(Debug, Clone, Copy, PartialEq, Eq, Structural)]
pub struct Reaction {
    pub positive: usize,
    pub negative: usize,
}

/// Positive and negative reactions waiting on atoms.  A reaction added on an
/// atom meets the oldest waiting reaction of the other sign on the same atom;
/// when there is none, it waits.
pub struct Pipl {
    atom_creator: AtomCreator,
    atom_queues: Vec<PiplAtom>,
}

/// `i` is the place of the oldest reaction in `pending` on `atom` with the
/// sign opposite to `positive`.
pub open spec fn is_first_partner(pending: Seq<PiplAtom>, atom: Atom, positive: bool, i: int) -> bool {
    &&& 0 <= i < pending.len()
    &&& pending[i].atom == atom
    &&& pending[i].positive != positive
    &&& forall|j: int| 0 <= j < i ==> !(pending[j].atom == atom && pending[j].positive != positive)
}

/// The pair that `a` forms with `other`.
pub open spec fn pair_of(a: PiplAtom, other: PiplAtom) -> Reaction {
    if a.positive {
        Reaction { positive: a.key, negative: other.key }
    } else {
        Reaction { positive: other.key, negative: a.key }
    }
}

impl Pipl {
    /// The waiting reactions, oldest first.
    pub closed spec fn pending(&self) -> Seq<PiplAtom> {
        self.atom_queues@
    }

    /// The number the next atom will carry.
    pub closed spec fn next_id(&self) -> usize {
        self.atom_creator.next_id()
    }

    /// Nothing waits, and the first atom will be numbered 0.
    pub fn new() -> (p: Pipl)
        ensures
            p.pending() == Seq::<PiplAtom>::empty(),
            p.next_id() == 0,
    {
        Pipl { atom_creator: AtomCreator::new(), atom_queues: Vec::new() }
    }

    /// Whether another atom can be numbered: the counter has not reached
    /// `usize::MAX`.
    pub fn has_next_atom(&self) -> (b: bool)
        ensures
            b == (self.next_id() < usize::MAX),
    {
        self.atom_creator.has_next()
    }

    /// A new atom.
    pub fn atom(&mut self) -> (a: Atom)
        requires
            old(self).next_id() < usize::MAX,
        ensures
            a.id() == old(self).next_id(),
            final(self).next_id() == old(self).next_id() + 1,
            final(self).pending() == old(self).pending(),
    {
        self.atom_creator.create()
    }

    /// Adds the positive reaction kept under `key` on `atom`; gives the pair
    /// it forms, if it meets a negative one.
    pub fn add_positive(&mut self, atom: Atom, key: usize) -> (r: Option<Reaction>)
        ensures
            spec_add_atom(old(self).pending(), PiplAtom { atom, positive: true, key }, final(self).pending(), r),
            final(self).next_id() == old(self).next_id(),
    {
        self.add_atom(PiplAtom { atom, positive: true, key })
    }

    /// Adds the negative reaction kept under `key` on `atom`; gives the pair
    /// it forms, if it meets a positive one.
    pub fn add_negative(&mut self, atom: Atom, key: usize) -> (r: Option<Reaction>)
        ensures
            spec_add_atom(old(self).pending(), PiplAtom { atom, positive: false, key }, final(self).pending(), r),
            final(self).next_id() == old(self).next_id(),
    {
        self.add_atom(PiplAtom { atom, positive: false, key })
    }

    fn add_atom(&mut self, atom: PiplAtom) -> (r: Option<Reaction>)
        ensures
            spec_add_atom(old(self).pending(), atom, final(self).pending(), r),
            final(self).next_id() == old(self).next_id(),
    {
        let mut i: usize = 0;
        while i < self.atom_queues.len()
            invariant
                i <= self.atom_queues@.len(),
                self.atom_queues@ == old(self).atom_queues@,
                self.atom_creator == old(self).atom_creator,
                forall|j: int| 0 <= j < i ==> !(self.atom_queues@[j].atom == atom.atom && self.atom_queues@[j].positive != atom.positive),
            decreases self.atom_queues@.len() - i,
        {
            let a = self.atom_queues[i];
            if a.atom == atom.atom && a.positive != atom.positive {
                proof {
                    let pend = old(self).atom_queues@;
                    assert(is_first_partner(pend, atom.atom, atom.positive, i as int));
                    assert forall|k: int| is_first_partner(pend, atom.atom, atom.positive, k) implies k == i by {
                        if k < i {
                        } else if k > i {
                            assert(!(pend[i as int].atom == atom.atom && pend[i as int].positive != atom.positive));
                        }
                    }
                }
                let other = self.atom_queues.remove(i);
                return Some(react(atom, other));
            }
            i = i + 1;
        }
        self.atom_queues.push(atom);
        None
    }
}

/// The pair of a reaction and the one it meets.
fn react(a0: PiplAtom, a1: PiplAtom) -> (r: Reaction)
    ensures
        r == pair_of(a0, a1),
{
    if a0.positive {
        Reaction { positive: a0.key, negative: a1.key }
    } else {
        Reaction { positive: a1.key, negative: a0.key }
    }
}

/// Adding `a` to `pending` gives `pending1` and the pair `r`: if some
/// reaction of the other sign waits on the same atom, the oldest such one
/// leaves and forms the pair with `a`; else `a` waits, last.
pub open spec fn spec_add_atom(pending: Seq<PiplAtom>, a: PiplAtom, pending1: Seq<PiplAtom>, r: Option<Reaction>) -> bool {
    if exists|i: int| is_first_partner(pending, a.atom, a.positive, i) {
        let i = choose|i: int| is_first_partner(pending, a.atom, a.positive, i);
        &&& r == Some(pair_of(a, pending[i]))
        &&& pending1 == pending.remove(i)
    } else {
        &&& r is None
        &&& pending1 == pending.push(a)
    }
}

/// A new, empty pipl.
pub fn connect() -> (p: Pipl)
    ensures
        p.pending() == Seq::<PiplAtom>::empty(),
        p.next_id() == 0,
{
    Pipl::new()
}

/// No two waiting reactions on the same atom have opposite signs: every
/// pair that could meet has met.
pub open spec fn settled(pending: Seq<PiplAtom>) -> bool {
    forall|i: int, j: int|
        0 <= i < pending.len() && 0 <= j < pending.len() && #[trigger] pending[i].atom == #[trigger] pending[j].atom
            ==> pending[i].positive == pending[j].positive
}

/// A positive and a negative reaction on the same atom meet, whichever is
/// added first, when nothing else waits on that atom: the first one waits,
/// the second one forms the pair with it, and the queue is as before.
pub proof fn lemma_opposites_meet(
    pending: Seq<PiplAtom>,
    a: PiplAtom,
    b: PiplAtom,
    p1: Seq<PiplAtom>,
    r1: Option<Reaction>,
    p2: Seq<PiplAtom>,
    r2: Option<Reaction>,
)
    requires
        forall|i: int| 0 <= i < pending.len() ==> #[trigger] pending[i].atom != a.atom,
        b.atom == a.atom,
        b.positive != a.positive,
        spec_add_atom(pending, a, p1, r1),
        spec_add_atom(p1, b, p2, r2),
    ensures
        r1 is None,
        p1 == pending.push(a),
        r2 == Some(pair_of(b, a)),
        p2 == pending,
{
    assert(!exists|i: int| is_first_partner(pending, a.atom, a.positive, i));
    let k = pending.len() as int;
    assert(is_first_partner(p1, b.atom, b.positive, k));
    assert forall|i: int| is_first_partner(p1, b.atom, b.positive, i) implies i == k by {
        if i < k {
            assert(p1[i] == pending[i]);
        }
    }
    assert(p1.remove(k) =~= pending);
}

/// When some reaction in `pending` at or before `i` could meet one on
/// `atom` of sign `positive`, the first such one exists, no later than `i`.
proof fn lemma_partner_found(pending: Seq<PiplAtom>, atom: Atom, positive: bool, i: int) -> (k: int)
    requires
        0 <= i < pending.len(),
        pending[i].atom == atom,
        pending[i].positive != positive,
    ensures
        0 <= k <= i,
        is_first_partner(pending, atom, positive, k),
        forall|m: int| #[trigger] is_first_partner(pending, atom, positive, m) ==> m == k,
    decreases i,
{
    if exists|j: int| 0 <= j < i && #[trigger] pending[j].atom == atom && pending[j].positive != positive {
        let j = choose|j: int| 0 <= j < i && #[trigger] pending[j].atom == atom && pending[j].positive != positive;
        lemma_partner_found(pending, atom, positive, j)
    } else {
        assert forall|m: int| #[trigger] is_first_partner(pending, atom, positive, m) implies m == i by {
            if m > i {
                assert(!(pending[i].atom == atom && pending[i].positive != positive));
            }
        }
        i
    }
}

/// Among reactions of one sign waiting on an atom, the oldest meets first:
/// a reaction of the other sign on that atom forms its pair with one that
/// came no later than any other, and each younger one keeps waiting.
pub proof fn lemma_oldest_first(pending: Seq<PiplAtom>, a: PiplAtom, i: int, j: int, p1: Seq<PiplAtom>, r: Option<Reaction>)
    requires
        0 <= i < j < pending.len(),
        pending[i].atom == a.atom,
        pending[j].atom == a.atom,
        pending[i].positive != a.positive,
        pending[j].positive != a.positive,
        spec_add_atom(pending, a, p1, r),
    ensures
        exists|k: int|
            0 <= k <= i && #[trigger] is_first_partner(pending, a.atom, a.positive, k) && r == Some(pair_of(a, pending[k]))
                && p1 == pending.remove(k),
        p1[j - 1] == pending[j],
{
    let k = lemma_partner_found(pending, a.atom, a.positive, i);
    assert(r == Some(pair_of(a, pending[k])) && p1 == pending.remove(k));
}

/// Adding a reaction keeps the waiting reactions settled.
pub proof fn lemma_add_keeps_settled(pending: Seq<PiplAtom>, a: PiplAtom, p1: Seq<PiplAtom>, r: Option<Reaction>)
    requires
        settled(pending),
        spec_add_atom(pending, a, p1, r),
    ensures
        settled(p1),
{
    if exists|i: int| is_first_partner(pending, a.atom, a.positive, i) {
        let k = choose|i: int| is_first_partner(pending, a.atom, a.positive, i);
        assert forall|i: int, j: int|
            0 <= i < p1.len() && 0 <= j < p1.len() && #[trigger] p1[i].atom == #[trigger] p1[j].atom
                implies p1[i].positive == p1[j].positive by {
            let ii = if i < k { i } else { i + 1 };
            let jj = if j < k { j } else { j + 1 };
            assert(p1[i] == pending[ii]);
            assert(p1[j] == pending[jj]);
            assert(pending[ii].atom == pending[jj].atom);
        }
    } else {
        assert forall|i: int, j: int|
            0 <= i < p1.len() && 0 <= j < p1.len() && #[trigger] p1[i].atom == #[trigger] p1[j].atom
                implies p1[i].positive == p1[j].positive by {
            if i < pending.len() && j < pending.len() {
                assert(pending[i].atom == pending[j].atom);
            } else if i < pending.len() {
                assert(p1[j] == a);
                if pending[i].positive != a.positive {
                    lemma_partner_found(pending, a.atom, a.positive, i);
                }
            } else if j < pending.len() {
                assert(p1[i] == a);
                if pending[j].positive != a.positive {
                    lemma_partner_found(pending, a.atom, a.positive, j);
                }
            }
        }
    }
}

/// One call on a pipl, seen through its atom counter: `atom()` takes the
/// counter from `n0` to `n1` and gives `got == Some(a)`; adding a reaction
/// leaves the counter and gives no atom (`got == None`).  These are what the
/// contracts of `atom`, `add_positive` and `add_negative` say.
pub open spec fn run_step(n0: usize, n1: usize, got: Option<Atom>) -> bool {
    match got {
        Some(a) => a.id() == n0 && n1 == n0 + 1,
        None => n1 == n0,
    }
}

/// How many atoms the first `k` calls of a run gave.
pub open spec fn atoms_given(got: Seq<Option<Atom>>, k: int) -> nat
    decreases k,
{
    if k <= 0 {
        0
    } else {
        atoms_given(got, k - 1) + if got[k - 1] is Some { 1nat } else { 0nat }
    }
}

/// Over any run of calls on a pipl made by `connect` (counter 0), the k-th
/// atom handed out is numbered k, so all atoms handed out differ.  `nexts[i]`
/// is the counter before call `i`, and `got[i]` the atom that call gave, if
/// any.
pub proof fn lemma_run_atoms_distinct(nexts: Seq<usize>, got: Seq<Option<Atom>>)
    requires
        nexts.len() == got.len() + 1,
        nexts[0] == 0,
        forall|i: int| 0 <= i < got.len() ==> run_step(nexts[i], nexts[i + 1], #[trigger] got[i]),
    ensures
        forall|i: int| 0 <= i < got.len() && got[i] is Some ==> (#[trigger] got[i])->0.id() == atoms_given(got, i),
        forall|i: int, j: int|
            0 <= i < j < got.len() && got[i] is Some && got[j] is Some ==> #[trigger] got[i]->0 != #[trigger] got[j]->0,
{
    assert forall|k: int| 0 <= k <= got.len() implies #[trigger] nexts[k] == atoms_given(got, k) by {
        lemma_counter_counts(nexts, got, k);
    }
    assert forall|i: int| 0 <= i < got.len() && got[i] is Some implies (#[trigger] got[i])->0.id() == atoms_given(got, i) by {
        assert(nexts[i] == atoms_given(got, i));
    }
    assert forall|i: int, j: int|
        0 <= i < j < got.len() && got[i] is Some && got[j] is Some implies #[trigger] got[i]->0 != #[trigger] got[j]->0 by {
        lemma_given_grows(got, i + 1, j);
        assert(nexts[i] == atoms_given(got, i));
        assert(nexts[j] == atoms_given(got, j));
        assert(run_step(nexts[i], nexts[i + 1], got[i]));
        assert(run_step(nexts[j], nexts[j + 1], got[j]));
    }
}

/// The counter before call `k` is the number of atoms given before it.
proof fn lemma_counter_counts(nexts: Seq<usize>, got: Seq<Option<Atom>>, k: int)
    requires
        nexts.len() == got.len() + 1,
        nexts[0] == 0,
        forall|i: int| 0 <= i < got.len() ==> run_step(nexts[i], nexts[i + 1], #[trigger] got[i]),
        0 <= k <= got.len(),
    ensures
        nexts[k] == atoms_given(got, k),
    decreases k,
{
    if k > 0 {
        lemma_counter_counts(nexts, got, k - 1);
        assert(run_step(nexts[k - 1], nexts[k], got[k - 1]));
    }
}

/// The number of atoms given never falls, and one given at `i - 1` counts.
proof fn lemma_given_grows(got: Seq<Option<Atom>>, i: int, j: int)
    requires
        0 < i <= j,
        j <= got.len(),
        got[i - 1] is Some,
    ensures
        atoms_given(got, i - 1) < atoms_given(got, j),
    decreases j - i,
{
    if j > i {
        lemma_given_grows(got, i, j - 1);
    }
}

} // verus!
