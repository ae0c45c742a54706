use vstd::prelude::*;
use crate::call::Call;
use crate::name::Name;
use crate::prefix::{Action, Prefix, PrefixDirection};
use crate::engine::Pipl;
use crate::processor::spec_add_all;

verus! {

/// What follows a prefix being built.
#[verifier::reject_recursive_types(V)]
pub enum Builder<V> {
    Prefix(PrefixBuilder<V>),
    Parallel(ParallelBuilder<V>),
    Choice(ChoiceBuilder<V>),
    Terminal,
}

/// Collects sequences and hands them to a `Pipl`.
#[verifier::reject_recursive_types(V)]
pub struct PiplBuilder<V> {
    sequences: Vec<PrefixBuilder<V>>,
}

/// Builds one prefix and what follows it.
#[verifier::reject_recursive_types(V)]
pub struct PrefixBuilder<V> {
    name: Name,
    direction: PrefixDirection,
    repeating: bool,
    restricts: Vec<Name>,
    names: Vec<Name>,
    call: Option<Box<dyn Call<V>>>,
    next: Box<Builder<V>>,
}

/// Builds a parallel process.
#[verifier::reject_recursive_types(V)]
pub struct ParallelBuilder<V> {
    restricts: Vec<Name>,
    sequences: Vec<PrefixBuilder<V>>,
}

/// Builds a choice.
#[verifier::reject_recursive_types(V)]
pub struct ChoiceBuilder<V> {
    restricts: Vec<Name>,
    sequences: Vec<PrefixBuilder<V>>,
}

/// The names a list of name references points to.
pub open spec fn deref_names(names: Seq<&Name>) -> Seq<Name> {
    names.map_values(|n: &Name| *n)
}

fn extend_names(v: &mut Vec<Name>, names: &[&Name])
    ensures
        final(v)@ == old(v)@ + deref_names(names@),
{
    let mut i: usize = 0;
    while i < names.len()
        invariant
            i <= names@.len(),
            v@ == old(v)@ + deref_names(names@.subrange(0, i as int)),
        decreases names@.len() - i,
    {
        v.push(*names[i]);
        i = i + 1;
        assert(v@ =~= old(v)@ + deref_names(names@.subrange(0, i as int)));
    }
    assert(names@.subrange(0, names@.len() as int) =~= names@);
}

/// The parts of a prefix builder: name, direction, whether it repeats, the
/// names it restricts, the names it communicates, its call, and what follows.
pub type PrefixParts<V> = (Name, PrefixDirection, bool, Seq<Name>, Seq<Name>, Option<Box<dyn Call<V>>>, Builder<V>);

impl<V> View for PrefixBuilder<V> {
    type V = PrefixParts<V>;

    closed spec fn view(&self) -> PrefixParts<V> {
        (self.name, self.direction, self.repeating, self.restricts@, self.names@, self.call, *self.next)
    }
}

/// The parts of a fresh builder for a prefix on `name` in `direction`.
pub open spec fn fresh_parts<V>(name: Name, direction: PrefixDirection) -> PrefixParts<V> {
    (name, direction, false, Seq::empty(), Seq::empty(), None, Builder::Terminal)
}

impl<V> PrefixBuilder<V> {
    fn new(name: Name, direction: PrefixDirection) -> (b: PrefixBuilder<V>)
        ensures
            b@ == fresh_parts::<V>(name, direction),
    {
        PrefixBuilder {
            name: name,
            direction: direction,
            repeating: false,
            restricts: Vec::new(),
            names: Vec::new(),
            call: None,
            next: Box::new(Builder::Terminal),
        }
    }

    /// Makes the prefix repeat.
    pub fn repeat(&mut self) -> (r: &mut Self)
        ensures
            r@ == (old(self)@.0, old(self)@.1, true, old(self)@.3, old(self)@.4, old(self)@.5, old(self)@.6),
            final(self)@ == final(r)@,
    {
        self.repeating = true;
        self
    }

    /// Adds names to make unique within the prefix.
    pub fn restrict(&mut self, names: &[&Name]) -> (r: &mut Self)
        ensures
            r@ == (old(self)@.0, old(self)@.1, old(self)@.2, old(self)@.3 + deref_names(names@), old(self)@.4, old(self)@.5, old(self)@.6),
            final(self)@ == final(r)@,
    {
        extend_names(&mut self.restricts, names);
        self
    }

    /// Adds names to communicate.
    pub fn names(&mut self, names: &[&Name]) -> (r: &mut Self)
        ensures
            r@ == (old(self)@.0, old(self)@.1, old(self)@.2, old(self)@.3, old(self)@.4 + deref_names(names@), old(self)@.5, old(self)@.6),
            final(self)@ == final(r)@,
    {
        extend_names(&mut self.names, names);
        self
    }

    /// Sets the code to run between the communication and what follows, in
    /// place of any code set before.
    pub fn call(&mut self, call: Box<dyn Call<V>>) -> (r: &mut Self)
        ensures
            r@.0 == old(self)@.0 && r@.1 == old(self)@.1 && r@.2 == old(self)@.2,
            r@.3 == old(self)@.3 && r@.4 == old(self)@.4 && r@.6 == old(self)@.6,
            r@.5 == Some(call),
            final(self)@ == final(r)@,
    {
        let held = Some(call);
        self.call = held;
        self
    }

    /// Ends the prefix with a read on `name`, and gives its builder.
    pub fn read(&mut self, name: &Name) -> (r: &mut PrefixBuilder<V>)
        ensures
            r@ == fresh_parts::<V>(*name, PrefixDirection::Read),
            final(self)@ == (old(self)@.0, old(self)@.1, old(self)@.2, old(self)@.3, old(self)@.4, old(self)@.5, Builder::Prefix(*final(r))),
    {
        self.prefix(name, PrefixDirection::Read)
    }

    /// Ends the prefix with a send on `name`, and gives its builder.
    pub fn send(&mut self, name: &Name) -> (r: &mut PrefixBuilder<V>)
        ensures
            r@ == fresh_parts::<V>(*name, PrefixDirection::Send),
            final(self)@ == (old(self)@.0, old(self)@.1, old(self)@.2, old(self)@.3, old(self)@.4, old(self)@.5, Builder::Prefix(*final(r))),
    {
        self.prefix(name, PrefixDirection::Send)
    }

    /// Ends the prefix with a parallel process, and gives its builder.
    pub fn parallel(&mut self) -> (r: &mut ParallelBuilder<V>)
        ensures
            r@ == (Seq::<Name>::empty(), Seq::<PrefixBuilder<V>>::empty()),
            final(self)@ == (old(self)@.0, old(self)@.1, old(self)@.2, old(self)@.3, old(self)@.4, old(self)@.5, Builder::Parallel(*final(r))),
    {
        self.next = Box::new(Builder::Parallel(ParallelBuilder::new()));
        match &mut *self.next {
            Builder::Parallel(b) => b,
            _ => vstd::pervasive::unreached(),
        }
    }

    /// Ends the prefix with a choice, and gives its builder.
    pub fn choice(&mut self) -> (r: &mut ChoiceBuilder<V>)
        ensures
            r@ == (Seq::<Name>::empty(), Seq::<PrefixBuilder<V>>::empty()),
            final(self)@ == (old(self)@.0, old(self)@.1, old(self)@.2, old(self)@.3, old(self)@.4, old(self)@.5, Builder::Choice(*final(r))),
    {
        self.next = Box::new(Builder::Choice(ChoiceBuilder::new()));
        match &mut *self.next {
            Builder::Choice(b) => b,
            _ => vstd::pervasive::unreached(),
        }
    }

    fn prefix(&mut self, name: &Name, direction: PrefixDirection) -> (r: &mut PrefixBuilder<V>)
        ensures
            r@ == fresh_parts::<V>(*name, direction),
            final(self)@ == (old(self)@.0, old(self)@.1, old(self)@.2, old(self)@.3, old(self)@.4, old(self)@.5, Builder::Prefix(*final(r))),
    {
        self.next = Box::new(Builder::Prefix(PrefixBuilder::new(*name, direction)));
        match &mut *self.next {
            Builder::Prefix(b) => b,
            _ => vstd::pervasive::unreached(),
        }
    }
}

impl<V> View for ParallelBuilder<V> {
    type V = (Seq<Name>, Seq<PrefixBuilder<V>>);

    closed spec fn view(&self) -> (Seq<Name>, Seq<PrefixBuilder<V>>) {
        (self.restricts@, self.sequences@)
    }
}

impl<V> ParallelBuilder<V> {
    fn new() -> (b: ParallelBuilder<V>)
        ensures
            b@ == (Seq::<Name>::empty(), Seq::<PrefixBuilder<V>>::empty()),
    {
        ParallelBuilder { restricts: Vec::new(), sequences: Vec::new() }
    }

    /// Adds names to make unique within the process.
    pub fn restrict(&mut self, names: &[&Name]) -> (r: &mut Self)
        ensures
            r@ == (old(self)@.0 + deref_names(names@), old(self)@.1),
            final(self)@ == final(r)@,
    {
        extend_names(&mut self.restricts, names);
        self
    }

    fn prefix(&mut self, name: &Name, direction: PrefixDirection) -> (r: &mut PrefixBuilder<V>)
        ensures
            r@ == fresh_parts::<V>(*name, direction),
            final(self)@ == (old(self)@.0, old(self)@.1.push(*final(r))),
    {
        let n = self.sequences.len();
        self.sequences.push(PrefixBuilder::new(*name, direction));
        &mut self.sequences[n]
    }

    /// Starts a new sequence with a read on `name`, and gives its builder.
    pub fn read(&mut self, name: &Name) -> (r: &mut PrefixBuilder<V>)
        ensures
            r@ == fresh_parts::<V>(*name, PrefixDirection::Read),
            final(self)@ == (old(self)@.0, old(self)@.1.push(*final(r))),
    {
        self.prefix(name, PrefixDirection::Read)
    }

    /// Starts a new sequence with a send on `name`, and gives its builder.
    pub fn send(&mut self, name: &Name) -> (r: &mut PrefixBuilder<V>)
        ensures
            r@ == fresh_parts::<V>(*name, PrefixDirection::Send),
            final(self)@ == (old(self)@.0, old(self)@.1.push(*final(r))),
    {
        self.prefix(name, PrefixDirection::Send)
    }
}

impl<V> View for ChoiceBuilder<V> {
    type V = (Seq<Name>, Seq<PrefixBuilder<V>>);

    closed spec fn view(&self) -> (Seq<Name>, Seq<PrefixBuilder<V>>) {
        (self.restricts@, self.sequences@)
    }
}

impl<V> ChoiceBuilder<V> {
    fn new() -> (b: ChoiceBuilder<V>)
        ensures
            b@ == (Seq::<Name>::empty(), Seq::<PrefixBuilder<V>>::empty()),
    {
        ChoiceBuilder { restricts: Vec::new(), sequences: Vec::new() }
    }

    /// Adds names to make unique within the choice.
    pub fn restrict(&mut self, names: &[&Name]) -> (r: &mut Self)
        ensures
            r@ == (old(self)@.0 + deref_names(names@), old(self)@.1),
            final(self)@ == final(r)@,
    {
        extend_names(&mut self.restricts, names);
        self
    }

    fn prefix(&mut self, name: &Name, direction: PrefixDirection) -> (r: &mut PrefixBuilder<V>)
        ensures
            r@ == fresh_parts::<V>(*name, direction),
            final(self)@ == (old(self)@.0, old(self)@.1.push(*final(r))),
    {
        let n = self.sequences.len();
        self.sequences.push(PrefixBuilder::new(*name, direction));
        &mut self.sequences[n]
    }

    /// Starts a new sequence with a read on `name`, and gives its builder.
    pub fn read(&mut self, name: &Name) -> (r: &mut PrefixBuilder<V>)
        ensures
            r@ == fresh_parts::<V>(*name, PrefixDirection::Read),
            final(self)@ == (old(self)@.0, old(self)@.1.push(*final(r))),
    {
        self.prefix(name, PrefixDirection::Read)
    }

    /// Starts a new sequence with a send on `name`, and gives its builder.
    pub fn send(&mut self, name: &Name) -> (r: &mut PrefixBuilder<V>)
        ensures
            r@ == fresh_parts::<V>(*name, PrefixDirection::Send),
            final(self)@ == (old(self)@.0, old(self)@.1.push(*final(r))),
    {
        self.prefix(name, PrefixDirection::Send)
    }
}

impl<V> View for PiplBuilder<V> {
    type V = Seq<PrefixBuilder<V>>;

    closed spec fn view(&self) -> Seq<PrefixBuilder<V>> {
        self.sequences@
    }
}

impl<V> PiplBuilder<V> {
    /// No sequences.
    pub fn new() -> (b: PiplBuilder<V>)
        ensures
            b@ == Seq::<PrefixBuilder<V>>::empty(),
    {
        PiplBuilder { sequences: Vec::new() }
    }

    fn prefix(&mut self, name: &Name, direction: PrefixDirection) -> (r: &mut PrefixBuilder<V>)
        ensures
            r@ == fresh_parts::<V>(*name, direction),
            final(self)@ == old(self)@.push(*final(r)),
    {
        let n = self.sequences.len();
        self.sequences.push(PrefixBuilder::new(*name, direction));
        &mut self.sequences[n]
    }

    /// Builds every sequence, starts each as a process of `pipl` in order,
    /// and empties the builder.
    pub fn apply(&mut self, pipl: &mut Pipl<V>)
        ensures
            final(self)@ == Seq::<PrefixBuilder<V>>::empty(),
            final(pipl).names() == old(pipl).names(),
            exists|ps: Seq<Prefix<V>>| {
                &&& ps.len() == old(self)@.len()
                &&& (forall|i: int| 0 <= i < ps.len() ==> built_from(#[trigger] ps[i], old(self)@[i]))
                &&& final(pipl).contexts() == spec_add_all(old(pipl).contexts(), Map::<Name, Name>::empty(), ps)
            },
    {
        let mut seqs: Vec<PrefixBuilder<V>> = Vec::new();
        std::mem::swap(&mut seqs, &mut self.sequences);
        let ghost orig = seqs@;
        let ghost mut ps: Seq<Prefix<V>> = Seq::empty();
        let ghost sv0 = pipl.contexts();
        let mut k: usize = 0;
        let n = seqs.len();
        while seqs.len() > 0
            invariant
                n == orig.len(),
                k + seqs@.len() == n,
                seqs@ == orig.skip(k as int),
                ps.len() == k,
                forall|j: int| 0 <= j < k ==> built_from(#[trigger] ps[j], orig[j]),
                pipl.contexts() == spec_add_all(sv0, Map::<Name, Name>::empty(), ps),
                pipl.names() == old(pipl).names(),
            decreases seqs@.len(),
        {
            let b = seqs.remove(0);
            assert(b == orig[k as int]);
            assert(seqs@ =~= orig.skip(k + 1));
            let p = b.build();
            let ghost gp = p;
            pipl.add(p);
            proof {
                let ps2 = ps.push(gp);
                assert(ps2.drop_last() =~= ps);
                assert(ps2.last() == gp);
                ps = ps2;
            }
            k = k + 1;
        }
        assert(self.sequences@ =~= Seq::<PrefixBuilder<V>>::empty());
    }

    /// Starts a new sequence with a read on `name`, and gives its builder.
    pub fn read(&mut self, name: &Name) -> (r: &mut PrefixBuilder<V>)
        ensures
            r@ == fresh_parts::<V>(*name, PrefixDirection::Read),
            final(self)@ == old(self)@.push(*final(r)),
    {
        self.prefix(name, PrefixDirection::Read)
    }

    /// Starts a new sequence with a send on `name`, and gives its builder.
    pub fn send(&mut self, name: &Name) -> (r: &mut PrefixBuilder<V>)
        ensures
            r@ == fresh_parts::<V>(*name, PrefixDirection::Send),
            final(self)@ == old(self)@.push(*final(r)),
    {
        self.prefix(name, PrefixDirection::Send)
    }
}

/// `a` restricts (when `restrict`) or communicates exactly `names`.
pub open spec fn names_action<V>(a: Action<V>, restrict: bool, names: Seq<Name>) -> bool {
    match a {
        Action::Restrict(v) => restrict && v@ == names,
        Action::Communicate(v) => !restrict && v@ == names,
        _ => false,
    }
}

/// `p` is the prefix that building `b` gives: its name and direction, then
/// in order a `Repeat` if `b` repeats, a `Restrict` of its restricted names
/// if there are any, a `Communicate` of its names if there are any, a
/// `Call` holding its call if it has one, and then what follows: the built next prefix; or
/// the restricted names of a parallel or a choice (if any) and the built
/// sequences of it; or nothing.
pub open spec fn built_from<V>(p: Prefix<V>, b: PrefixBuilder<V>) -> bool
    decreases b,
{
    let acts = p.pactions();
    let i1: int = if b@.2 { 1 } else { 0 };
    let i2: int = if b@.3.len() > 0 { i1 + 1 } else { i1 };
    let i3: int = if b@.4.len() > 0 { i2 + 1 } else { i2 };
    let i4: int = if b@.5 is Some { i3 + 1 } else { i3 };
    &&& p.pname() == b@.0
    &&& p.pdir() == b@.1
    &&& (b@.2 ==> acts.len() > 0 && acts[0] is Repeat)
    &&& (b@.3.len() > 0 ==> acts.len() > i1 && names_action(acts[i1], true, b@.3))
    &&& (b@.4.len() > 0 ==> acts.len() > i2 && names_action(acts[i2], false, b@.4))
    &&& (b@.5 is Some ==> acts.len() > i3 && acts[i3] == Action::Call(b@.5->0))
    &&& match b@.6 {
        Builder::Terminal => acts.len() == i4,
        Builder::Prefix(sb) => {
            &&& acts.len() == i4 + 1
            &&& match acts[i4] {
                Action::Prefix(q) => built_from(q, sb),
                _ => false,
            }
        },
        Builder::Parallel(pb) => {
            let j: int = if pb@.0.len() > 0 { i4 + 1 } else { i4 };
            &&& acts.len() == j + 1
            &&& (pb@.0.len() > 0 ==> names_action(acts[i4], true, pb@.0))
            &&& match acts[j] {
                Action::Parallel(qs) => qs@.len() == pb@.1.len() && forall|k: int|
                    0 <= k < qs@.len() ==> built_from(#[trigger] qs@[k], pb@.1[k]),
                _ => false,
            }
        },
        Builder::Choice(cb) => {
            let j: int = if cb@.0.len() > 0 { i4 + 1 } else { i4 };
            &&& acts.len() == j + 1
            &&& (cb@.0.len() > 0 ==> names_action(acts[i4], true, cb@.0))
            &&& match acts[j] {
                Action::Choice(qs) => qs@.len() == cb@.1.len() && forall|k: int|
                    0 <= k < qs@.len() ==> built_from(#[trigger] qs@[k], cb@.1[k]),
                _ => false,
            }
        },
    }
}

/// A built prefix whose builder ends in a parallel or a choice with
/// restricted names has, right before its last action (the parallel or the
/// choice), a `Restrict` of exactly those names.
pub proof fn lemma_built_branch_restricts<V>(p: Prefix<V>, b: PrefixBuilder<V>)
    requires
        built_from(p, b),
        match b@.6 {
            Builder::Parallel(pb) => pb@.0.len() > 0,
            Builder::Choice(cb) => cb@.0.len() > 0,
            _ => false,
        },
    ensures
        p.pactions().len() >= 2,
        match b@.6 {
            Builder::Parallel(pb) => {
                &&& p.pactions().last() is Parallel
                &&& p.pactions()[p.pactions().len() - 2] matches Action::Restrict(v) && v@ == pb@.0
            },
            Builder::Choice(cb) => {
                &&& p.pactions().last() is Choice
                &&& p.pactions()[p.pactions().len() - 2] matches Action::Restrict(v) && v@ == cb@.0
            },
            _ => false,
        },
{
}

/// The `Call` action holding the call, when there is one.
fn call_action<V>(call: Option<Box<dyn Call<V>>>) -> (a: Option<Action<V>>)
    ensures
        call is None ==> a is None,
        call is Some ==> a == Some(Action::Call(call->0)),
{
    match call {
        Some(c) => {
            let a = Action::Call(c);
            Some(a)
        },
        None => None,
    }
}

/// Adds a `Call` action holding the call, when there is one.
fn push_call<V>(actions: &mut Vec<Action<V>>, call: Option<Box<dyn Call<V>>>)
    ensures
        call is None ==> final(actions)@ == old(actions)@,
        call is Some ==> {
            &&& final(actions)@.len() == old(actions)@.len() + 1
            &&& final(actions)@.drop_last() == old(actions)@
            &&& final(actions)@.last() == Action::Call(call->0)
        },
{
    match call_action(call) {
        Some(a) => {
            let ghost before = actions@;
            actions.push(a);
            assert(actions@.drop_last() =~= before);
        },
        None => {},
    }
}

impl<V> PrefixBuilder<V> {
    /// The prefix this builder describes.
    pub fn build(self) -> (p: Prefix<V>)
        ensures
            built_from(p, self),
        decreases self,
    {
        let ghost this = self;
        let PrefixBuilder { name, direction, repeating, restricts, names, call, next } = self;
        assert(repeating == this.repeating && restricts@ == this.restricts@ && names@ == this.names@);
        assert(call == this.call && *next == *this.next);
        let mut actions: Vec<Action<V>> = Vec::new();
        if repeating {
            actions.push(Action::Repeat);
        }
        assert(this.repeating ==> actions@[0] is Repeat);
        let ghost i1 = actions@.len();
        if restricts.len() > 0 {
            actions.push(Action::Restrict(restricts));
        }
        assert(this.restricts@.len() > 0 ==> names_action(actions@[i1 as int], true, this.restricts@));
        assert(this.repeating ==> actions@[0] is Repeat);
        let ghost i2 = actions@.len();
        if names.len() > 0 {
            actions.push(Action::Communicate(names));
        }
        assert(this.names@.len() > 0 ==> names_action(actions@[i2 as int], false, this.names@));
        assert(this.repeating ==> actions@[0] is Repeat);
        assert(this.restricts@.len() > 0 ==> names_action(actions@[i1 as int], true, this.restricts@));
        let ghost i3 = actions@.len();
        push_call(&mut actions, call);
        assert(this.call is Some ==> actions@[i3 as int] == Action::Call(this.call->0));
        let ghost i4 = actions@.len();
        let ghost head = actions@;
        assert(this.repeating ==> head[0] is Repeat);
        assert(this.restricts@.len() > 0 ==> names_action(head[i1 as int], true, this.restricts@));
        assert(this.names@.len() > 0 ==> names_action(head[i2 as int], false, this.names@));
        match *next {
            Builder::Choice(b) => {
                let (restricts, sequences) = b.build();
                if restricts.len() > 0 {
                    actions.push(Action::Restrict(restricts));
                }
                actions.push(Action::Choice(sequences));
            },
            Builder::Parallel(b) => {
                let (restricts, sequences) = b.build();
                if restricts.len() > 0 {
                    actions.push(Action::Restrict(restricts));
                }
                actions.push(Action::Parallel(sequences));
            },
            Builder::Prefix(b) => {
                actions.push(Action::Prefix(b.build()));
            },
            Builder::Terminal => {},
        };
        let p = Prefix::new(name, direction, actions);
        proof {
            let acts = p.pactions();
            assert(forall|j: int| 0 <= j < i4 ==> acts[j] == head[j]);
            assert(acts.len() >= i4);
            if this.repeating {
                assert(acts[0] == head[0]);
            }
            if this.restricts@.len() > 0 {
                assert(acts[i1 as int] == head[i1 as int]);
            }
            if this.names@.len() > 0 {
                assert(acts[i2 as int] == head[i2 as int]);
            }
            if this.call is Some {
                assert(acts[i3 as int] == head[i3 as int]);
            }
            assert(this.repeating ==> acts[0] is Repeat);
            assert(this.restricts@.len() > 0 ==> acts.len() > i1 && names_action(acts[i1 as int], true, this.restricts@));
            assert(this.names@.len() > 0 ==> acts.len() > i2 && names_action(acts[i2 as int], false, this.names@));
            assert(i1 == if this.repeating { 1int } else { 0int });
            assert(i2 == if this.restricts@.len() > 0 { i1 + 1int } else { i1 as int });
            assert(i3 == if this.names@.len() > 0 { i2 + 1int } else { i2 as int });
            assert(i4 == if this.call is Some { i3 + 1int } else { i3 as int });
        }
        p
    }
}

impl<V> ParallelBuilder<V> {
    fn build(self) -> (r: (Vec<Name>, Vec<Prefix<V>>))
        ensures
            r.0@ == self@.0,
            r.1@.len() == self@.1.len(),
            forall|k: int| 0 <= k < r.1@.len() ==> built_from(#[trigger] r.1@[k], self@.1[k]),
        decreases self,
    {
        let ghost orig = self.sequences@;
        let ParallelBuilder { restricts, sequences } = self;
        let mut sequences = sequences;
        let mut ps: Vec<Prefix<V>> = Vec::new();
        let mut k: usize = 0;
        let n = sequences.len();
        while sequences.len() > 0
            invariant
                n == orig.len(),
                k + sequences@.len() == n,
                sequences@ == orig.skip(k as int),
                orig == self@.1,
                ps@.len() == k,
                forall|j: int| 0 <= j < k ==> built_from(#[trigger] ps@[j], orig[j]),
            decreases sequences@.len(),
        {
            let b = sequences.remove(0);
            assert(b == orig[k as int]);
            assert(sequences@ =~= orig.skip(k + 1));
            let p = b.build();
            ps.push(p);
            k = k + 1;
        }
        (restricts, ps)
    }
}

impl<V> ChoiceBuilder<V> {
    fn build(self) -> (r: (Vec<Name>, Vec<Prefix<V>>))
        ensures
            r.0@ == self@.0,
            r.1@.len() == self@.1.len(),
            forall|k: int| 0 <= k < r.1@.len() ==> built_from(#[trigger] r.1@[k], self@.1[k]),
        decreases self,
    {
        let ghost orig = self.sequences@;
        let ChoiceBuilder { restricts, sequences } = self;
        let mut sequences = sequences;
        let mut ps: Vec<Prefix<V>> = Vec::new();
        let mut k: usize = 0;
        let n = sequences.len();
        while sequences.len() > 0
            invariant
                n == orig.len(),
                k + sequences@.len() == n,
                sequences@ == orig.skip(k as int),
                orig == self@.1,
                ps@.len() == k,
                forall|j: int| 0 <= j < k ==> built_from(#[trigger] ps@[j], orig[j]),
            decreases sequences@.len(),
        {
            let b = sequences.remove(0);
            assert(b == orig[k as int]);
            assert(sequences@ =~= orig.skip(k + 1));
            let p = b.build();
            ps.push(p);
            k = k + 1;
        }
        (restricts, ps)
    }
}

} // verus!
