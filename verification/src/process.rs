//! A process as a tree: sequences that wait on a channel, choices and
//! parallels of sequences, restrictions, calls, and the terminal process.
use vstd::prelude::*;
use std::rc::Rc;
use crate::call::Call;
use crate::channel::Channel;
use crate::name::{Name, copy_names};
use crate::prefix::{Action, Prefix};

verus! {

/// A process.
#[verifier::reject_recursive_types(V)]
pub enum Process<V> {
    Call(Rc<CallProcess<V>>),
    Choice(Rc<ChoiceProcess<V>>),
    Names(Rc<Names<V>>),
    Parallel(Rc<ParallelProcess<V>>),
    Sequence(Rc<Sequence<V>>),
    Terminal,
}

/// Code to run, then a process.
#[verifier::reject_recursive_types(V)]
pub struct CallProcess<V> {
    pub call: Box<dyn Call<V>>,
    pub suffix: Process<V>,
}

/// The first of several sequences that reacts.
#[verifier::reject_recursive_types(V)]
pub struct ChoiceProcess<V> {
    options: Vec<Rc<Sequence<V>>>,
}

/// Fresh names, then a process.
#[verifier::reject_recursive_types(V)]
pub struct Names<V> {
    names: Vec<Name>,
    suffix: Process<V>,
}

/// Several sequences at once.
#[verifier::reject_recursive_types(V)]
pub struct ParallelProcess<V> {
    sequences: Vec<Rc<Sequence<V>>>,
}

/// Fresh names, a prefix, then a process.
#[verifier::reject_recursive_types(V)]
pub struct Sequence<V> {
    names: Vec<Name>,
    prefix: Prefix<V>,
    suffix: Process<V>,
}

/// Whether `p` does anything: it is not the terminal process, nor only
/// fresh names before it.
pub open spec fn spec_nonterminal<V>(p: Process<V>) -> bool
    decreases p,
{
    match p {
        Process::Terminal => false,
        Process::Names(n) => spec_nonterminal(n.spec_suffix()),
        _ => true,
    }
}

/// The names communicated by the actions `acts`: those of the first
/// communication, if any.
pub open spec fn communicated<V>(acts: Seq<Action<V>>) -> Seq<Name>
    decreases acts.len(),
{
    if acts.len() == 0 {
        Seq::empty()
    } else {
        match acts[0] {
            Action::Communicate(l) => l@,
            _ => communicated(acts.drop_first()),
        }
    }
}

impl<V> CallProcess<V> {
    /// A call, then `suffix`.  That the value holds exactly `call` is not
    /// stated: placing a boxed trait object in a struct field is a coercion
    /// whose result the verifier does not relate to the box given.
    pub fn new(call: Box<dyn Call<V>>, suffix: Process<V>) -> (c: CallProcess<V>)
        ensures
            c.suffix == suffix,
    {
        CallProcess { call: call, suffix: suffix }
    }
}

impl<V> ChoiceProcess<V> {
    pub closed spec fn spec_options(&self) -> Seq<Rc<Sequence<V>>> {
        self.options@
    }

    pub fn new(options: Vec<Rc<Sequence<V>>>) -> (c: ChoiceProcess<V>)
        ensures
            c.spec_options() == options@,
    {
        ChoiceProcess { options: options }
    }

    #[inline]
    pub fn options(&self) -> (o: &Vec<Rc<Sequence<V>>>)
        ensures
            o@ == self.spec_options(),
    {
        &self.options
    }
}

impl<V> Names<V> {
    pub closed spec fn spec_names(&self) -> Seq<Name> {
        self.names@
    }

    pub closed spec fn spec_suffix(&self) -> Process<V> {
        self.suffix
    }

    pub fn new(names: Vec<Name>, suffix: Process<V>) -> (n: Names<V>)
        ensures
            n.spec_names() == names@,
            n.spec_suffix() == suffix,
    {
        Names { names: names, suffix: suffix }
    }

    /// Whether the process after the names does anything.
    #[inline]
    pub fn is_nonterminal(&self) -> (b: bool)
        ensures
            b == spec_nonterminal(self.spec_suffix()),
        decreases *self,
    {
        self.suffix.is_nonterminal()
    }

    #[inline]
    pub fn names(&self) -> (n: &Vec<Name>)
        ensures
            n@ == self.spec_names(),
    {
        &self.names
    }

    #[inline]
    pub fn suffix(&self) -> (s: &Process<V>)
        ensures
            *s == self.spec_suffix(),
    {
        &self.suffix
    }
}

impl<V> ParallelProcess<V> {
    pub closed spec fn spec_sequences(&self) -> Seq<Rc<Sequence<V>>> {
        self.sequences@
    }

    pub fn new(sequences: Vec<Rc<Sequence<V>>>) -> (p: ParallelProcess<V>)
        ensures
            p.spec_sequences() == sequences@,
    {
        ParallelProcess { sequences: sequences }
    }

    #[inline]
    pub fn sequences(&self) -> (s: &Vec<Rc<Sequence<V>>>)
        ensures
            s@ == self.spec_sequences(),
    {
        &self.sequences
    }
}

impl<V> Sequence<V> {
    pub closed spec fn spec_new_names(&self) -> Seq<Name> {
        self.names@
    }

    pub closed spec fn spec_prefix(&self) -> Prefix<V> {
        self.prefix
    }

    pub closed spec fn spec_suffix(&self) -> Process<V> {
        self.suffix
    }

    pub fn new(names: Vec<Name>, prefix: Prefix<V>, suffix: Process<V>) -> (s: Sequence<V>)
        ensures
            s.spec_new_names() == names@,
            s.spec_prefix() == prefix,
            s.spec_suffix() == suffix,
    {
        Sequence { names: names, prefix: prefix, suffix: suffix }
    }

    /// The channel of its prefix.
    #[inline]
    pub fn channel(&self) -> (c: Channel)
        ensures
            c == self.spec_prefix().spec_channel(),
    {
        self.prefix.channel()
    }

    /// Whether its prefix is put back after it reacts.
    #[inline]
    pub fn is_repeating(&self) -> (b: bool)
        ensures
            b == (self.spec_prefix().pactions().len() > 0 && self.spec_prefix().pactions()[0] is Repeat),
    {
        let acts = self.prefix.actions();
        if acts.len() > 0 {
            match &acts[0] {
                Action::Repeat => true,
                _ => false,
            }
        } else {
            false
        }
    }

    /// The names its prefix reads or sends.
    pub fn names(&self) -> (v: Vec<Name>)
        ensures
            v@ == communicated(self.spec_prefix().pactions()),
    {
        let acts = self.prefix.actions();
        let mut i: usize = 0;
        assert(acts@.skip(0) =~= acts@);
        while i < acts.len()
            invariant
                i <= acts@.len(),
                acts@ == self.spec_prefix().pactions(),
                communicated(acts@) == communicated(acts@.skip(i as int)),
            decreases acts@.len() - i,
        {
            assert(acts@.skip(i as int)[0] == acts@[i as int]);
            assert(acts@.skip(i as int).drop_first() =~= acts@.skip(i + 1));
            if let Action::Communicate(list) = &acts[i] {
                assert(communicated(acts@.skip(i as int)) == list@);
                let v = copy_names(list);
                return v;
            }
            i = i + 1;
        }
        assert(acts@.skip(i as int) =~= Seq::<Action<V>>::empty());
        Vec::new()
    }

    /// The names made fresh before its prefix.
    #[inline]
    pub fn new_names(&self) -> (n: &Vec<Name>)
        ensures
            n@ == self.spec_new_names(),
    {
        &self.names
    }

    #[inline]
    pub fn suffix(&self) -> (s: &Process<V>)
        ensures
            *s == self.spec_suffix(),
    {
        &self.suffix
    }
}

impl<V> Process<V> {
    pub fn new_call(call: Box<dyn Call<V>>, suffix: Process<V>) -> (p: Process<V>)
        ensures
            p matches Process::Call(c) && c.suffix == suffix,
    {
        Process::Call(Rc::new(CallProcess::new(call, suffix)))
    }

    pub fn new_choice(options: Vec<Rc<Sequence<V>>>) -> (p: Process<V>)
        ensures
            p matches Process::Choice(c) && c.spec_options() == options@,
    {
        Process::Choice(Rc::new(ChoiceProcess::new(options)))
    }

    pub fn new_names(names: Vec<Name>, suffix: Process<V>) -> (p: Process<V>)
        ensures
            p matches Process::Names(n) && n.spec_names() == names@ && n.spec_suffix() == suffix,
    {
        Process::Names(Rc::new(Names::new(names, suffix)))
    }

    pub fn new_parallel(sequences: Vec<Rc<Sequence<V>>>) -> (p: Process<V>)
        ensures
            p matches Process::Parallel(s) && s.spec_sequences() == sequences@,
    {
        Process::Parallel(Rc::new(ParallelProcess::new(sequences)))
    }

    pub fn new_sequence(names: Vec<Name>, prefix: Prefix<V>, suffix: Process<V>) -> (p: Process<V>)
        ensures
            p matches Process::Sequence(s) && s.spec_new_names() == names@ && s.spec_prefix() == prefix
                && s.spec_suffix() == suffix,
    {
        Process::Sequence(Rc::new(Sequence::new(names, prefix, suffix)))
    }

    /// Whether the process does anything.
    pub fn is_nonterminal(&self) -> (b: bool)
        ensures
            b == spec_nonterminal(*self),
        decreases *self,
    {
        match self {
            Process::Terminal => false,
            Process::Names(p) => p.is_nonterminal(),
            _ => true,
        }
    }
}

} // verus!
