use vstd::prelude::*;
use crate::bindings::{Bindings, bound_name};
use crate::name::{Name, name_lt, lemma_name_order};
use crate::prefix::{Prefix, PrefixDirection};
use crate::seq_count::{
    count_where, count_of, lemma_count_push, lemma_count_remove_first, lemma_count_le_len,
};
use crate::context::{
    ContextId, Context, ChoiceContext, PrefixContext, ctx_bindings, ctx_prefixes, waits_on,
    ctx_waits, pick, collapsed, lemma_pick, CtxView, ctx_view,
};
use crate::context::index::{
    ContextIndex, IndexView, queue_of, with_added, with_removed, is_ready, is_first_ready,
};

verus! {

/// `v` after queueing `id` once for each of `ps`, in order, on the name each
/// waits on under `b`.
pub open spec fn indexed<V>(v: IndexView, b: Map<Name, Name>, ps: Seq<Prefix<V>>, id: ContextId) -> IndexView
    decreases ps.len(),
{
    if ps.len() == 0 {
        v
    } else {
        let p = ps.last();
        with_added(indexed(v, b, ps.drop_last(), id), bound_name(b, p.pname()), p.pdir(), id)
    }
}

/// `v` after taking `id` off the queue of each of `ps` but the first that
/// waits on `n` in direction `d`, in order.
pub open spec fn stripped<V>(
    v: IndexView,
    b: Map<Name, Name>,
    ps: Seq<Prefix<V>>,
    id: ContextId,
    n: Name,
    d: PrefixDirection,
) -> IndexView
    decreases ps.len(),
{
    if ps.len() == 0 {
        v
    } else {
        let prev = stripped(v, b, ps.drop_last(), id, n, d);
        let p = ps.last();
        if pick(b, ps.drop_last(), n, d) is None && waits_on(b, n, d)(p) {
            prev
        } else {
            with_removed(prev, bound_name(b, p.pname()), p.pdir(), id)
        }
    }
}

/// The index once context `c` in slot `id` has reacted on `n` in direction
/// `d`: a choice leaves the queues of its other prefixes.
pub open spec fn strip_ctx<V>(v: IndexView, c: Context<V>, id: ContextId, n: Name, d: PrefixDirection) -> IndexView {
    match c {
        Context::Choice(x) => stripped(v, x.bindings@, x.prefixes@, id, n, d),
        Context::Prefix(_) => v,
    }
}

/// The reacting pair the index offers next: the least ready name, with its
/// oldest reader and its oldest sender.
pub open spec fn next_pair(v: IndexView) -> (Name, ContextId, ContextId) {
    let n = choose|n: Name| is_first_ready(v, n);
    (n, v[n].0[0], v[n].1[0])
}

/// How many prefixes of the context in slot `id` wait on `n` in direction `d`.
pub open spec fn slot_waits<V>(slots: Seq<Option<Context<V>>>, id: ContextId, n: Name, d: PrefixDirection) -> nat {
    if id.0 < slots.len() && slots[id.0 as int] is Some {
        ctx_waits(slots[id.0 as int]->0, n, d)
    } else {
        0
    }
}

/// The contexts in the slots, the free slots, and the index.
pub type StoreView<V> = (Seq<Option<CtxView<V>>>, Seq<usize>, IndexView);

/// The view of a slot.
pub open spec fn slot_view<V>(o: Option<Context<V>>) -> Option<CtxView<V>> {
    match o {
        Some(c) => Some(ctx_view(c)),
        None => None,
    }
}

/// The store after adding a context with view `cv`: it takes the last freed
/// slot, else a new slot at the end, and each of its prefixes is queued on
/// the name it waits on.
pub open spec fn spec_add<V>(sv: StoreView<V>, cv: CtxView<V>) -> StoreView<V> {
    let s = next_slot(sv.0.len(), sv.1);
    (
        if s < sv.0.len() { sv.0.update(s as int, Some(cv)) } else { sv.0.push(Some(cv)) },
        if sv.1.len() > 0 { sv.1.drop_last() } else { sv.1 },
        indexed(sv.2, cv.1, cv.2, ContextId(s as usize)),
    )
}

/// The index once the context with view `cv` in slot `id` has reacted on `n`
/// in direction `d`.
pub open spec fn strip_view<V>(v: IndexView, cv: CtxView<V>, id: ContextId, n: Name, d: PrefixDirection) -> IndexView {
    if cv.0 { stripped(v, cv.1, cv.2, id, n, d) } else { v }
}

/// Queueing a single prefix is one `with_added`.
pub proof fn lemma_indexed_single<V>(v: IndexView, b: Map<Name, Name>, p: Prefix<V>, id: ContextId)
    ensures
        indexed(v, b, seq![p], id) == with_added(v, bound_name(b, p.pname()), p.pdir(), id),
{
    let ps = seq![p];
    assert(ps.drop_last() =~= Seq::<Prefix<V>>::empty());
    assert(indexed(v, b, Seq::<Prefix<V>>::empty(), id) == v);
    assert(ps.last() == p);
}

/// The slot that the next added context takes.
pub open spec fn next_slot(data_len: nat, free: Seq<usize>) -> nat {
    if free.len() > 0 { free.last() as nat } else { data_len }
}

proof fn lemma_queue_added(v: IndexView, m: Name, e: PrefixDirection, x: ContextId, n: Name, d: PrefixDirection, y: ContextId)
    ensures
        count_of(queue_of(with_added(v, m, e, x), n, d), y) == count_of(queue_of(v, n, d), y)
            + if m == n && e == d && x == y { 1nat } else { 0nat },
{
    let q = queue_of(v, n, d);
    if m == n && e == d {
        assert(queue_of(with_added(v, m, e, x), n, d) == q.push(x));
        lemma_count_push(q, x, crate::seq_count::eq_to(y));
    } else {
        assert(queue_of(with_added(v, m, e, x), n, d) == q);
    }
}

proof fn lemma_queue_removed(v: IndexView, m: Name, e: PrefixDirection, x: ContextId, n: Name, d: PrefixDirection, y: ContextId)
    ensures
        count_of(queue_of(with_removed(v, m, e, x), n, d), y) <= count_of(queue_of(v, n, d), y),
        !(m == n && e == d && x == y) ==> count_of(queue_of(with_removed(v, m, e, x), n, d), y)
            == count_of(queue_of(v, n, d), y),
        m == n && e == d && x == y && count_of(queue_of(v, n, d), y) > 0 ==>
            count_of(queue_of(with_removed(v, m, e, x), n, d), y) + 1 == count_of(queue_of(v, n, d), y),
        with_removed(v, m, e, x).contains_key(n) == v.contains_key(n),
{
    let q = queue_of(v, n, d);
    if v.contains_key(m) && m == n && e == d {
        assert(queue_of(with_removed(v, m, e, x), n, d) == crate::seq_count::remove_first(q, x));
        lemma_count_remove_first(q, x, crate::seq_count::eq_to(y));
        if count_of(q, y) > 0 && x == y {
            crate::seq_count::lemma_count_pos(q, crate::seq_count::eq_to(y));
        }
    } else {
        assert(queue_of(with_removed(v, m, e, x), n, d) == q);
    }
}

proof fn lemma_queue_indexed<V>(v: IndexView, b: Map<Name, Name>, ps: Seq<Prefix<V>>, id: ContextId, n: Name, d: PrefixDirection, y: ContextId)
    ensures
        count_of(queue_of(indexed(v, b, ps, id), n, d), y) == count_of(queue_of(v, n, d), y)
            + if y == id { count_where(ps, waits_on(b, n, d)) } else { 0nat },
    decreases ps.len(),
{
    if ps.len() > 0 {
        let p = ps.last();
        lemma_queue_indexed(v, b, ps.drop_last(), id, n, d, y);
        lemma_queue_added(indexed(v, b, ps.drop_last(), id), bound_name(b, p.pname()), p.pdir(), id, n, d, y);
    }
}

/// Once the queues of `n` are gone, stripping a context takes it off each
/// other queue once per prefix that waits there, as far as it occurs, and
/// changes no other context's count.
proof fn lemma_queue_stripped<V>(v: IndexView, b: Map<Name, Name>, ps: Seq<Prefix<V>>, id: ContextId, n: Name, d: PrefixDirection, m: Name, e: PrefixDirection, y: ContextId)
    requires
        !v.contains_key(n),
    ensures
        !stripped(v, b, ps, id, n, d).contains_key(n),
        y != id ==> count_of(queue_of(stripped(v, b, ps, id, n, d), m, e), y) == count_of(queue_of(v, m, e), y),
        y == id && m != n ==> count_of(queue_of(stripped(v, b, ps, id, n, d), m, e), y) == (
            if count_of(queue_of(v, m, e), y) >= count_where(ps, waits_on(b, m, e)) {
                (count_of(queue_of(v, m, e), y) - count_where(ps, waits_on(b, m, e))) as nat
            } else {
                0nat
            }),
    decreases ps.len(),
{
    if ps.len() > 0 {
        let p = ps.last();
        let prev = stripped(v, b, ps.drop_last(), id, n, d);
        let bn = bound_name(b, p.pname());
        lemma_queue_stripped(v, b, ps.drop_last(), id, n, d, m, e, y);
        lemma_queue_removed(prev, bn, p.pdir(), id, m, e, y);
        lemma_queue_removed(prev, bn, p.pdir(), id, n, d, y);
        if y == id && m != n && waits_on(b, m, e)(p) {
            assert(!(pick(b, ps.drop_last(), n, d) is None && waits_on(b, n, d)(p)));
            crate::seq_count::lemma_count_pos(queue_of(prev, m, e), crate::seq_count::eq_to(y));
        }
    }
}

/// No counted entry waits on a name whose queues are gone.
proof fn lemma_queue_absent(v: IndexView, n: Name, d: PrefixDirection, y: ContextId)
    requires
        !v.contains_key(n),
    ensures
        count_of(queue_of(v, n, d), y) == 0,
{
}

/// Slots holding waiting contexts, the free slots, and the index of what
/// each context waits on.
#[verifier::reject_recursive_types(V)]
pub struct ContextStore<V> {
    data: Vec<Option<Context<V>>>,
    free: Vec<usize>,
    index: ContextIndex,
}

impl<V> ContextStore<V> {
    /// The contexts, the free slots, and the index.
    pub closed spec fn view(&self) -> StoreView<V> {
        (self.data@.map_values(|o: Option<Context<V>>| slot_view(o)), self.free@, self.index@)
    }

    /// The slots: a waiting context, or nothing.
    pub closed spec fn slots(&self) -> Seq<Option<Context<V>>> {
        self.data@
    }

    /// The free slots, the next one to be used last.
    pub closed spec fn free_slots(&self) -> Seq<usize> {
        self.free@
    }

    /// What each context waits on.
    pub closed spec fn index(&self) -> IndexView {
        self.index@
    }

    /// The free list names exactly the empty slots, once each, and the index
    /// lists each context at most once for each of its prefixes that waits
    /// on that name and direction.
    pub closed spec fn wf(&self) -> bool {
        &&& self.index.wf()
        &&& self.free@.no_duplicates()
        &&& forall|i: int|
            0 <= i < self.free@.len() ==> #[trigger] self.free@[i] < self.data@.len()
                && self.data@[self.free@[i] as int] is None
        &&& forall|j: int|
            0 <= j < self.data@.len() && #[trigger] self.data@[j] is None ==> self.free@.contains(
                j as usize,
            )
        &&& forall|n: Name, d: PrefixDirection, id: ContextId|
            #[trigger] count_of(queue_of(self.index@, n, d), id) <= slot_waits(self.data@, id, n, d)
    }

    /// An empty store.
    pub fn new() -> (s: ContextStore<V>)
        ensures
            s.wf(),
            s.slots() == Seq::<Option<Context<V>>>::empty(),
            s.free_slots() == Seq::<usize>::empty(),
            s.index() == IndexView::empty(),
            s@ == (Seq::<Option<CtxView<V>>>::empty(), Seq::<usize>::empty(), IndexView::empty()),
    {
        let s = ContextStore { data: Vec::new(), free: Vec::new(), index: ContextIndex::new() };
        assert(s@.0 =~= Seq::<Option<CtxView<V>>>::empty());
        s
    }

    fn index_context(index: &mut ContextIndex, ctx: &Context<V>, id: ContextId)
        requires
            old(index).wf(),
        ensures
            final(index).wf(),
            final(index)@ == indexed(old(index)@, ctx_bindings(*ctx), ctx_prefixes(*ctx), id),
    {
        match ctx {
            Context::Prefix(pc) => {
                let ghost v0 = index@;
                let n = pc.bindings.get_name(pc.prefix.name());
                index.add(n, pc.prefix.direction(), id);
                proof {
                    let ps = seq![pc.prefix];
                    assert(ps.drop_last() =~= Seq::<Prefix<V>>::empty());
                    assert(indexed(v0, pc.bindings@, Seq::<Prefix<V>>::empty(), id) == v0);
                    assert(ps.last() == pc.prefix);
                }
            },
            Context::Choice(cc) => {
                let ghost v0 = index@;
                let ghost b = cc.bindings@;
                let ghost ps = cc.prefixes@;
                let mut i: usize = 0;
                assert(ps.take(0) =~= Seq::<Prefix<V>>::empty());
                while i < cc.prefixes.len()
                    invariant
                        index.wf(),
                        i <= ps.len(),
                        ps == cc.prefixes@,
                        b == cc.bindings@,
                        index@ == indexed(v0, b, ps.take(i as int), id),
                    decreases ps.len() - i,
                {
                    let p = &cc.prefixes[i];
                    let n = cc.bindings.get_name(p.name());
                    index.add(n, p.direction(), id);
                    assert(ps.take(i + 1).drop_last() =~= ps.take(i as int));
                    i = i + 1;
                }
                assert(ps.take(ps.len() as int) =~= ps);
            },
        }
    }

    /// Puts `ctx` in the next slot (the last freed one, else a new one at the
    /// end) and queues it on what each of its prefixes waits on.
    fn add_helper(&mut self, ctx: Context<V>)
        requires
            old(self).wf(),
        ensures
            final(self).wf(),
            ({
                let s = next_slot(old(self).slots().len(), old(self).free_slots());
                &&& final(self).slots() == (if s < old(self).slots().len() {
                    old(self).slots().update(s as int, Some(ctx))
                } else {
                    old(self).slots().push(Some(ctx))
                })
                &&& final(self).free_slots() == (if old(self).free_slots().len() > 0 {
                    old(self).free_slots().drop_last()
                } else {
                    old(self).free_slots()
                })
                &&& final(self).index() == indexed(
                    old(self).index(),
                    ctx_bindings(ctx),
                    ctx_prefixes(ctx),
                    ContextId(s as usize),
                )
            }),
    {
        let ghost d0 = self.data@;
        let ghost f0 = self.free@;
        let ghost v0 = self.index@;
        let id = match self.free.pop() {
            Some(id) => id,
            None => self.data.len(),
        };
        proof {
            if f0.len() > 0 {
                assert(f0[f0.len() - 1] == id);
            }
        }
        Self::index_context(&mut self.index, &ctx, ContextId(id));
        if id < self.data.len() {
            self.data.set(id, Some(ctx));
        } else {
            self.data.push(Some(ctx));
        }
        proof {
            let sid = ContextId(id);
            assert forall|n: Name, d: PrefixDirection, y: ContextId|
                #[trigger] count_of(queue_of(self.index@, n, d), y) <= slot_waits(self.data@, y, n, d) by {
                lemma_queue_indexed(v0, ctx_bindings(ctx), ctx_prefixes(ctx), sid, n, d, y);
                assert(count_of(queue_of(v0, n, d), y) <= slot_waits(d0, y, n, d));
                if y != sid {
                    if y.0 < d0.len() {
                        assert(self.data@[y.0 as int] == d0[y.0 as int]);
                    }
                }
            }
            assert forall|i: int| 0 <= i < self.free@.len() implies #[trigger] self.free@[i] < self.data@.len()
                && self.data@[self.free@[i] as int] is None by {
                assert(self.free@[i] == f0[i]);
                assert(f0[i] != id);
            }
            assert forall|j: int| 0 <= j < self.data@.len() && #[trigger] self.data@[j] is None implies
                self.free@.contains(j as usize) by {
                assert(j != id);
                assert(d0[j] is None);
                assert(f0.contains(j as usize));
                let k = choose|k: int| 0 <= k < f0.len() && f0[k] == j as usize;
                assert(self.free@[k] == j as usize);
            }
        }
    }


    /// Adds a choice among `prefixes` under `bindings`.
    pub fn add_choice(&mut self, bindings: Bindings, prefixes: Vec<Prefix<V>>)
        requires
            old(self).wf(),
        ensures
            final(self).wf(),
            final(self)@ == spec_add(old(self)@, (true, bindings@, prefixes@)),
    {
        let ghost sv = self@;
        let ghost d0 = self.data@;
        let ghost cv = (true, bindings@, prefixes@);
        let ctx = Context::Choice(ChoiceContext { bindings, prefixes });
        let ghost gc = ctx;
        self.add_helper(ctx);
        proof {
            Self::lemma_view_after_add(d0, self.data@, sv.1, gc);
        }
    }

    /// Adds `prefix` under `bindings`.
    pub fn add_prefix(&mut self, bindings: Bindings, prefix: Prefix<V>)
        requires
            old(self).wf(),
        ensures
            final(self).wf(),
            final(self)@ == spec_add(old(self)@, (false, bindings@, seq![prefix])),
    {
        let ghost sv = self@;
        let ghost d0 = self.data@;
        let ghost cv = (false, bindings@, seq![prefix]);
        let ctx = Context::Prefix(PrefixContext { bindings, prefix });
        let ghost gc = ctx;
        self.add_helper(ctx);
        proof {
            Self::lemma_view_after_add(d0, self.data@, sv.1, gc);
        }
    }

    proof fn lemma_view_after_add(d0: Seq<Option<Context<V>>>, d1: Seq<Option<Context<V>>>, f0: Seq<usize>, c: Context<V>)
        requires
            ({
                let s = next_slot(d0.len(), f0);
                d1 == (if s < d0.len() {
                    d0.update(s as int, Some(c))
                } else {
                    d0.push(Some(c))
                })
            }),
        ensures
            ({
                let cv = ctx_view(c);
                let s = next_slot(d0.len(), f0);
                let m0 = d0.map_values(|o: Option<Context<V>>| slot_view(o));
                d1.map_values(|o: Option<Context<V>>| slot_view(o)) == (if s < d0.len() {
                    m0.update(s as int, Some(cv))
                } else {
                    m0.push(Some(cv))
                })
            }),
    {
        let cv = ctx_view(c);
        let s = next_slot(d0.len(), f0);
        let m0 = d0.map_values(|o: Option<Context<V>>| slot_view(o));
        if s < d0.len() {
            assert(d1.map_values(|o: Option<Context<V>>| slot_view(o)) =~= m0.update(s as int, Some(cv)));
        } else {
            assert(d1.map_values(|o: Option<Context<V>>| slot_view(o)) =~= m0.push(Some(cv)));
        }
    }

    /// Takes the context out of slot `id` and frees the slot; nothing when the
    /// slot is empty or does not exist.
    fn remove(&mut self, id: ContextId) -> (r: Option<Context<V>>)
        ensures
            final(self).index() == old(self).index(),
            final(self).index.wf() == old(self).index.wf(),
            if id.0 < old(self).slots().len() && old(self).slots()[id.0 as int] is Some {
                &&& r == old(self).slots()[id.0 as int]
                &&& final(self).slots() == old(self).slots().update(id.0 as int, None)
                &&& final(self).free_slots() == old(self).free_slots().push(id.0)
            } else {
                &&& r is None
                &&& final(self).slots() == old(self).slots()
                &&& final(self).free_slots() == old(self).free_slots()
            },
    {
        if id.0 < self.data.len() {
            let ctx = self.data[id.0].take();
            match ctx {
                Some(_) => {
                    self.free.push(id.0);
                    ctx
                },
                None => {
                    proof {
                        assert(self.data@ =~= old(self).data@);
                    }
                    None
                },
            }
        } else {
            None
        }
    }

    /// Takes the context in slot `id` out of the store as it reacts on `name`
    /// in `direction`: a choice keeps the first of its prefixes that waits
    /// there and leaves the queues of the others.
    fn collapse(&mut self, context_id: ContextId, name: &Name, direction: PrefixDirection) -> (r: PrefixContext<V>)
        requires
            old(self).wf(),
            context_id.0 < old(self).slots().len(),
            old(self).slots()[context_id.0 as int] is Some,
            old(self).slots()[context_id.0 as int]->0 is Choice ==> ctx_waits(
                old(self).slots()[context_id.0 as int]->0,
                *name,
                direction,
            ) > 0,
        ensures
            final(self).index.wf(),
            !old(self).index().contains_key(*name) && ctx_waits(old(self).slots()[context_id.0 as int]->0, *name, direction)
                > 0 ==> final(self).wf(),
            ({
                let c = old(self).slots()[context_id.0 as int]->0;
                &&& r == collapsed(c, *name, direction)
                &&& final(self).slots() == old(self).slots().update(context_id.0 as int, None)
                &&& final(self).free_slots() == old(self).free_slots().push(context_id.0)
                &&& final(self).index() == strip_ctx(old(self).index(), c, context_id, *name, direction)
            }),
            !old(self).index().contains_key(*name) ==> !final(self).index().contains_key(*name),
    {
        let ghost c0 = self.data@[context_id.0 as int]->0;
        let ghost d0 = self.data@;
        let ghost f0 = self.free@;
        let ghost v0 = self.index@;
        let ctx = self.remove(context_id).unwrap();
        let r = match ctx {
            Context::Choice(ctx) => {
                let ghost b = ctx.bindings@;
                let ghost ps = ctx.prefixes@;
                let mut r: Option<Prefix<V>> = None;
                let mut i: usize = 0;
                assert(ps.take(0) =~= Seq::<Prefix<V>>::empty());
                while i < ctx.prefixes.len()
                    invariant
                        self.index.wf(),
                        i <= ps.len(),
                        ps == ctx.prefixes@,
                        b == ctx.bindings@,
                        self.index@ == stripped(v0, b, ps.take(i as int), context_id, *name, direction),
                        r == pick(b, ps.take(i as int), *name, direction),
                        self.data@ == d0.update(context_id.0 as int, None),
                        self.free@ == f0.push(context_id.0),
                    decreases ps.len() - i,
                {
                    let p = &ctx.prefixes[i];
                    let n = ctx.bindings.get_name(p.name());
                    assert(ps.take(i + 1).drop_last() =~= ps.take(i as int));
                    if r.is_none() && *name == n && direction == p.direction() {
                        r = Some(p.clone());
                    } else {
                        self.index.remove(&n, p.direction(), &context_id);
                    }
                    i = i + 1;
                }
                assert(ps.take(ps.len() as int) =~= ps);
                proof {
                    lemma_pick(b, ps, *name, direction);
                }
                PrefixContext { bindings: ctx.bindings, prefix: r.unwrap() }
            },
            Context::Prefix(ctx) => ctx,
        };
        proof {
            let id = context_id;
            if !v0.contains_key(*name) {
                if let Context::Choice(x) = c0 {
                    lemma_queue_stripped(v0, x.bindings@, x.prefixes@, id, *name, direction, *name, direction, id);
                }
            }
        }
        proof {
            if !v0.contains_key(*name) && ctx_waits(c0, *name, direction) > 0 {
            let id = context_id;
            assert forall|i: int| 0 <= i < self.free@.len() implies #[trigger] self.free@[i] < self.data@.len()
                && self.data@[self.free@[i] as int] is None by {
                if i < f0.len() {
                    assert(self.free@[i] == f0[i]);
                }
            }
            assert forall|j: int| 0 <= j < self.data@.len() && #[trigger] self.data@[j] is None implies
                self.free@.contains(j as usize) by {
                if j == id.0 {
                    assert(self.free@[f0.len() as int] == j as usize);
                } else {
                    assert(f0.contains(j as usize));
                    let k = choose|k: int| 0 <= k < f0.len() && f0[k] == j as usize;
                    assert(self.free@[k] == j as usize);
                }
            }
            assert forall|i: int, j: int| 0 <= i < self.free@.len() && 0 <= j < self.free@.len() && i != j
                implies self.free@[i] != self.free@[j] by {
                if i < f0.len() && j < f0.len() {
                } else if i < f0.len() {
                    assert(d0[f0[i] as int] is None);
                } else {
                    assert(d0[f0[j] as int] is None);
                }
            }
            assert forall|n: Name, d: PrefixDirection, y: ContextId|
                #[trigger] count_of(queue_of(self.index@, n, d), y) <= slot_waits(self.data@, y, n, d) by {
                assert(count_of(queue_of(v0, n, d), y) <= slot_waits(d0, y, n, d));
                match c0 {
                    Context::Choice(x) => {
                        lemma_queue_stripped(v0, x.bindings@, x.prefixes@, id, *name, direction, n, d, y);
                        if y == id && n == *name {
                            lemma_queue_absent(self.index@, n, d, y);
                        }
                    },
                    Context::Prefix(x) => {
                        if y == id {
                            crate::seq_count::lemma_count_single(x.prefix, waits_on(x.bindings@, *name, direction));
                            crate::seq_count::lemma_count_single(x.prefix, waits_on(x.bindings@, n, d));
                            if n == *name {
                                lemma_queue_absent(v0, n, d, y);
                            }
                        }
                    },
                }
                if y != id && y.0 < d0.len() {
                    assert(self.data@[y.0 as int] == d0[y.0 as int]);
                }
            }
        }
        }
        r
    }

    /// Takes the next reacting pair out of the store: the oldest reader and
    /// the oldest sender on the least ready name, each collapsed to the
    /// prefix that reacts.  When that reader and sender are the same choice,
    /// the name leaves the index and nothing reacts.
    pub fn next(&mut self) -> (r: Option<(PrefixContext<V>, PrefixContext<V>)>)
        requires
            old(self).wf(),
        ensures
            final(self).wf(),
            (forall|n: Name| !#[trigger] is_ready(old(self)@.2, n)) ==> {
                &&& r is None
                &&& final(self)@ == old(self)@
            },
            (exists|n: Name| #[trigger] is_ready(old(self)@.2, n)) ==> {
                let (n, rd, sd) = next_pair(old(self)@.2);
                let rc = old(self)@.0[rd.0 as int]->0;
                let sc = old(self)@.0[sd.0 as int]->0;
                &&& rd.0 < old(self)@.0.len() && old(self)@.0[rd.0 as int] is Some
                &&& sd.0 < old(self)@.0.len() && old(self)@.0[sd.0 as int] is Some
                &&& if rd == sd {
                    &&& r is None
                    &&& final(self)@ == (old(self)@.0, old(self)@.1, old(self)@.2.remove(n))
                } else {
                    &&& r is Some
                    &&& ({
                        let (reader, sender) = r->0;
                        &&& reader.bindings@ == rc.1
                        &&& reader.prefix == pick(rc.1, rc.2, n, PrefixDirection::Read)->0
                        &&& sender.bindings@ == sc.1
                        &&& sender.prefix == pick(sc.1, sc.2, n, PrefixDirection::Send)->0
                        &&& reader.prefix.pdir() == PrefixDirection::Read
                        &&& bound_name(reader.bindings@, reader.prefix.pname()) == n
                        &&& sender.prefix.pdir() == PrefixDirection::Send
                        &&& bound_name(sender.bindings@, sender.prefix.pname()) == n
                    })
                    &&& final(self)@ == (
                        old(self)@.0.update(rd.0 as int, None).update(sd.0 as int, None),
                        old(self)@.1.push(rd.0).push(sd.0),
                        strip_view(
                            strip_view(old(self)@.2.remove(n), rc, rd, n, PrefixDirection::Read),
                            sc,
                            sd,
                            n,
                            PrefixDirection::Send,
                        ),
                    )
                }
            },
    {
        let ghost v0 = self.index@;
        let ghost d0 = self.data@;
        match self.index.next() {
            None => None,
            Some((name, read, send)) => {
                proof {
                    lemma_first_ready_unique(v0, name, next_pair(v0).0);
                    assert forall|n: Name, d: PrefixDirection, y: ContextId|
                        #[trigger] count_of(queue_of(self.index@, n, d), y) <= slot_waits(self.data@, y, n, d) by {
                        assert(count_of(queue_of(v0, n, d), y) <= slot_waits(d0, y, n, d));
                        if n == name {
                            lemma_queue_absent(self.index@, n, d, y);
                        } else {
                            assert(queue_of(self.index@, n, d) == queue_of(v0, n, d));
                        }
                    }
                    let rq = queue_of(v0, name, PrefixDirection::Read);
                    let sq = queue_of(v0, name, PrefixDirection::Send);
                    crate::seq_count::lemma_count_pos(rq, crate::seq_count::eq_to(read));
                    crate::seq_count::lemma_count_pos(sq, crate::seq_count::eq_to(send));
                    assert(count_of(rq, read) <= slot_waits(d0, read, name, PrefixDirection::Read));
                    assert(count_of(sq, send) <= slot_waits(d0, send, name, PrefixDirection::Send));
                }
                if read == send {
                    return None;
                }
                let ghost d1 = self.data@;
                let reader = self.collapse(read, &name, PrefixDirection::Read);
                let ghost d2 = self.data@;
                let sender = self.collapse(send, &name, PrefixDirection::Send);
                proof {
                    let rc = d0[read.0 as int]->0;
                    let sc = d0[send.0 as int]->0;
                    Self::lemma_collapsed_view(rc, name, PrefixDirection::Read);
                    Self::lemma_collapsed_view(sc, name, PrefixDirection::Send);
                    lemma_pick(ctx_bindings(rc), ctx_prefixes(rc), name, PrefixDirection::Read);
                    lemma_pick(ctx_bindings(sc), ctx_prefixes(sc), name, PrefixDirection::Send);
                    assert(self.data@.map_values(|o: Option<Context<V>>| slot_view(o)) =~=
                        d0.map_values(|o: Option<Context<V>>| slot_view(o)).update(read.0 as int, None).update(send.0 as int, None));
                }
                Some((reader, sender))
            },
        }
    }
}

impl<V> ContextStore<V> {
    proof fn lemma_collapsed_view(c: Context<V>, n: Name, d: PrefixDirection)
        requires
            ctx_waits(c, n, d) > 0,
        ensures
            collapsed(c, n, d).bindings@ == ctx_view(c).1,
            collapsed(c, n, d).prefix == pick(ctx_view(c).1, ctx_view(c).2, n, d)->0,
            strip_ctx(Map::empty(), c, ContextId(0), n, d) == strip_view(Map::empty(), ctx_view(c), ContextId(0), n, d),
    {
        if let Context::Prefix(x) = c {
            let ps = seq![x.prefix];
            assert(ps.drop_last() =~= Seq::<Prefix<V>>::empty());
            assert(ps.last() == x.prefix);
            crate::seq_count::lemma_count_single(x.prefix, waits_on(x.bindings@, n, d));
            assert(pick(x.bindings@, Seq::<Prefix<V>>::empty(), n, d) is None);
            assert(pick(x.bindings@, ps, n, d) == Some(x.prefix));
        }
    }
}

impl<V> ContextStore<V> {
    /// A context that has left the store waits on nothing: in a well-formed
    /// store, the number of an empty slot, or of no slot at all, is in no
    /// queue of the index.  So once a choice reacts, none of its other
    /// prefixes can react any more.
    pub proof fn lemma_empty_slot_waits_nowhere(&self, id: ContextId, n: Name, d: PrefixDirection)
        requires
            self.wf(),
            id.0 < self@.0.len() ==> self@.0[id.0 as int] is None,
        ensures
            !queue_of(self@.2, n, d).contains(id),
    {
        let q = queue_of(self.index@, n, d);
        assert(count_of(q, id) <= slot_waits(self.data@, id, n, d));
        crate::seq_count::lemma_count_pos(q, crate::seq_count::eq_to(id));
        if q.contains(id) {
            let i = choose|i: int| 0 <= i < q.len() && q[i] == id;
            assert(crate::seq_count::eq_to(id)(q[i]));
        }
    }
}

/// There is at most one least ready name.
pub proof fn lemma_first_ready_unique(v: IndexView, a: Name, b: Name)
    requires
        is_first_ready(v, a),
    ensures
        is_first_ready(v, b) ==> a == b,
        is_first_ready(v, choose|n: Name| is_first_ready(v, n)),
{
    if is_first_ready(v, b) {
        assert(is_ready(v, b));
        assert(is_ready(v, a));
        lemma_name_order(a, b, a);
    }
}

} // verus!
