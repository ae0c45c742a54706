use vstd::prelude::*;
use crate::bindings::{Bindings, bound_name};
use crate::name::Name;
use crate::prefix::{Prefix, PrefixDirection};
use crate::seq_count::count_where;

pub mod index;
pub mod store;

pub use index::ContextIndex;
pub use store::ContextStore;

verus! {

/// The number of a context slot in a `ContextStore`.
#[derive(Clone, Copy, Debug, PartialEq, Eq, Structural, Hash)]
pub struct ContextId(pub usize);

/// A choice waiting to react: whichever of its prefixes reacts first is the
/// one that goes on.
#[verifier::reject_recursive_types(V)]
pub struct ChoiceContext<V> {
    pub bindings: Bindings,
    pub prefixes: Vec<Prefix<V>>,
}

/// A prefix waiting to react, with the bindings of its process.
#[verifier::reject_recursive_types(V)]
pub struct PrefixContext<V> {
    pub bindings: Bindings,
    pub prefix: Prefix<V>,
}

/// A process waiting in the store.
#[verifier::reject_recursive_types(V)]
pub enum Context<V> {
    Choice(ChoiceContext<V>),
    Prefix(PrefixContext<V>),
}

/// What matters of a waiting context: whether it is a choice, its bindings,
/// and the prefixes it waits with.
pub type CtxView<V> = (bool, Map<Name, Name>, Seq<Prefix<V>>);

/// The view of a context.
pub open spec fn ctx_view<V>(c: Context<V>) -> CtxView<V> {
    (c is Choice, ctx_bindings(c), ctx_prefixes(c))
}

/// The bindings of a context.
pub open spec fn ctx_bindings<V>(c: Context<V>) -> Map<Name, Name> {
    match c {
        Context::Choice(x) => x.bindings@,
        Context::Prefix(x) => x.bindings@,
    }
}

/// The prefixes a context waits with.
pub open spec fn ctx_prefixes<V>(c: Context<V>) -> Seq<Prefix<V>> {
    match c {
        Context::Choice(x) => x.prefixes@,
        Context::Prefix(x) => seq![x.prefix],
    }
}

/// Under bindings `b`, prefix `p` waits on name `n` in direction `d`.
pub open spec fn waits_on<V>(b: Map<Name, Name>, n: Name, d: PrefixDirection) -> spec_fn(Prefix<V>) -> bool {
    |p: Prefix<V>| bound_name(b, p.pname()) == n && p.pdir() == d
}

/// How many prefixes of `c` wait on `n` in direction `d`.
pub open spec fn ctx_waits<V>(c: Context<V>, n: Name, d: PrefixDirection) -> nat {
    count_where(ctx_prefixes(c), waits_on(ctx_bindings(c), n, d))
}

/// The first of `ps` that waits on `n` in direction `d` under `b`.
pub open spec fn pick<V>(b: Map<Name, Name>, ps: Seq<Prefix<V>>, n: Name, d: PrefixDirection) -> Option<Prefix<V>>
    decreases ps.len(),
{
    if ps.len() == 0 {
        None
    } else {
        let prev = pick(b, ps.drop_last(), n, d);
        if prev is Some {
            prev
        } else if waits_on(b, n, d)(ps.last()) {
            Some(ps.last())
        } else {
            None
        }
    }
}

/// What is left of context `c` when it reacts on `n` in direction `d`: its
/// bindings, with the first of its prefixes that waits there.
pub open spec fn collapsed<V>(c: Context<V>, n: Name, d: PrefixDirection) -> PrefixContext<V> {
    match c {
        Context::Choice(x) => PrefixContext {
            bindings: x.bindings,
            prefix: pick(x.bindings@, x.prefixes@, n, d)->0,
        },
        Context::Prefix(x) => x,
    }
}

/// A prefix is picked exactly when one waits there.
pub proof fn lemma_pick<V>(b: Map<Name, Name>, ps: Seq<Prefix<V>>, n: Name, d: PrefixDirection)
    ensures
        (pick(b, ps, n, d) is Some) <==> count_where(ps, waits_on(b, n, d)) > 0,
        pick(b, ps, n, d) is Some ==> waits_on(b, n, d)(pick(b, ps, n, d)->0),
    decreases ps.len(),
{
    if ps.len() > 0 {
        lemma_pick(b, ps.drop_last(), n, d);
    }
}

impl<V> Context<V> {
    /// A prefix with no bindings.
    pub fn prefix(prefix: Prefix<V>) -> (c: Context<V>)
        ensures
            c matches Context::Prefix(x) && x.prefix == prefix && x.bindings@ == Map::<Name, Name>::empty(),
    {
        Context::Prefix(PrefixContext::new(prefix, Bindings::new()))
    }

    /// The name that `key` stands for in this context.
    pub fn get_name(&self, key: &Name) -> (n: Name)
        ensures
            n == bound_name(ctx_bindings(*self), *key),
    {
        match self {
            Context::Choice(ctx) => ctx.bindings.get_name(key),
            Context::Prefix(ctx) => ctx.bindings.get_name(key),
        }
    }
}

impl<V> PrefixContext<V> {
    pub fn new(prefix: Prefix<V>, bindings: Bindings) -> (c: PrefixContext<V>)
        ensures
            c.prefix == prefix,
            c.bindings == bindings,
    {
        PrefixContext { bindings, prefix }
    }

    /// A choice among `prefixes` under these bindings.
    pub fn choice(self, prefixes: Vec<Prefix<V>>) -> (c: ChoiceContext<V>)
        ensures
            c.bindings == self.bindings,
            c.prefixes == prefixes,
    {
        ChoiceContext { bindings: self.bindings, prefixes }
    }

    /// `prefix` under a copy of these bindings.
    pub fn clone_with(&self, prefix: Prefix<V>) -> (c: PrefixContext<V>)
        ensures
            c.prefix == prefix,
            c.bindings@ == self.bindings@,
    {
        PrefixContext { bindings: self.bindings.clone(), prefix }
    }
}

impl<V> Clone for PrefixContext<V> {
    fn clone(&self) -> (c: PrefixContext<V>)
        ensures
            c.prefix == self.prefix,
            c.bindings@ == self.bindings@,
    {
        PrefixContext { bindings: self.bindings.clone(), prefix: self.prefix.clone() }
    }
}

impl<V> Clone for ChoiceContext<V> {
    fn clone(&self) -> (c: ChoiceContext<V>)
        ensures
            c.prefixes@ == self.prefixes@,
            c.bindings@ == self.bindings@,
    {
        let mut ps: Vec<Prefix<V>> = Vec::new();
        let mut i: usize = 0;
        while i < self.prefixes.len()
            invariant
                i <= self.prefixes@.len(),
                ps@ == self.prefixes@.subrange(0, i as int),
            decreases self.prefixes@.len() - i,
        {
            ps.push(self.prefixes[i].clone());
            i = i + 1;
            assert(ps@ =~= self.prefixes@.subrange(0, i as int));
        }
        assert(self.prefixes@.subrange(0, self.prefixes@.len() as int) =~= self.prefixes@);
        ChoiceContext { bindings: self.bindings.clone(), prefixes: ps }
    }
}

} // verus!
