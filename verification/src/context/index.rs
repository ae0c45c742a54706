use vstd::prelude::*;
use crate::name::{Name, name_lt, lemma_name_order};
use crate::prefix::PrefixDirection;
use crate::context::ContextId;
use crate::seq_count::{remove_first, lemma_remove_first_at, lemma_remove_first_absent};

verus! {

/// For each name, the contexts waiting to read on it and those waiting to
/// send on it, oldest first.
pub type IndexView = Map<Name, (Seq<ContextId>, Seq<ContextId>)>;

/// The contexts waiting on `n` in direction `d`, oldest first.
pub open spec fn queue_of(v: IndexView, n: Name, d: PrefixDirection) -> Seq<ContextId> {
    if v.contains_key(n) {
        match d {
            PrefixDirection::Read => v[n].0,
            PrefixDirection::Send => v[n].1,
        }
    } else {
        Seq::empty()
    }
}

/// `v` with `id` queued last on `n` in direction `d`.
pub open spec fn with_added(v: IndexView, n: Name, d: PrefixDirection, id: ContextId) -> IndexView {
    let r = queue_of(v, n, PrefixDirection::Read);
    let s = queue_of(v, n, PrefixDirection::Send);
    v.insert(
        n,
        match d {
            PrefixDirection::Read => (r.push(id), s),
            PrefixDirection::Send => (r, s.push(id)),
        },
    )
}

/// `v` with the oldest occurrence of `id` taken off the queue of `n` in
/// direction `d`; `v` itself when there is none.
pub open spec fn with_removed(v: IndexView, n: Name, d: PrefixDirection, id: ContextId) -> IndexView {
    if v.contains_key(n) {
        v.insert(
            n,
            match d {
                PrefixDirection::Read => (remove_first(v[n].0, id), v[n].1),
                PrefixDirection::Send => (v[n].0, remove_first(v[n].1, id)),
            },
        )
    } else {
        v
    }
}

/// Some context waits to read on `n` and some context waits to send on it.
pub open spec fn is_ready(v: IndexView, n: Name) -> bool {
    v.contains_key(n) && v[n].0.len() > 0 && v[n].1.len() > 0
}

/// `n` is the least ready name.
pub open spec fn is_first_ready(v: IndexView, n: Name) -> bool {
    is_ready(v, n) && forall|m: Name| #[trigger] is_ready(v, m) ==> m == n || name_lt(n, m)
}

struct NameQueue {
    name: Name,
    reads: Vec<ContextId>,
    sends: Vec<ContextId>,
}

/// Which contexts wait on which name, in each direction.
pub struct ContextIndex {
    queues: Vec<NameQueue>,
    view: Ghost<IndexView>,
}

impl ContextIndex {
    pub closed spec fn view(&self) -> IndexView {
        self.view@
    }

    pub closed spec fn wf(&self) -> bool {
        &&& forall|i: int, j: int|
            0 <= i < j < self.queues@.len() ==> #[trigger] self.queues@[i].name
                != #[trigger] self.queues@[j].name
        &&& forall|i: int|
            0 <= i < self.queues@.len() ==> {
                &&& self.view@.contains_key(#[trigger] self.queues@[i].name)
                &&& self.view@[self.queues@[i].name] == (
                    self.queues@[i].reads@,
                    self.queues@[i].sends@,
                )
            }
        &&& forall|n: Name|
            #[trigger] self.view@.contains_key(n) ==> exists|i: int|
                0 <= i < self.queues@.len() && #[trigger] self.queues@[i].name == n
    }

    /// No context waits on anything.
    pub fn new() -> (x: ContextIndex)
        ensures
            x.wf(),
            x@ == IndexView::empty(),
    {
        ContextIndex { queues: Vec::new(), view: Ghost(Map::empty()) }
    }

    fn find(&self, name: &Name) -> (r: Option<usize>)
        requires
            self.wf(),
        ensures
            match r {
                Some(i) => i < self.queues@.len() && self.queues@[i as int].name == *name,
                None => !self@.contains_key(*name),
            },
    {
        let mut i: usize = 0;
        while i < self.queues.len()
            invariant
                self.wf(),
                i <= self.queues@.len(),
                forall|j: int| 0 <= j < i ==> self.queues@[j].name != *name,
            decreases self.queues@.len() - i,
        {
            if self.queues[i].name == *name {
                return Some(i);
            }
            i = i + 1;
        }
        None
    }

    /// Queues `context_id` last among the contexts waiting on `name` in
    /// `direction`.
    pub fn add(&mut self, name: Name, direction: PrefixDirection, context_id: ContextId)
        requires
            old(self).wf(),
        ensures
            final(self).wf(),
            final(self)@ == with_added(old(self)@, name, direction, context_id),
    {
        let ghost v0 = self.view@;
        match self.find(&name) {
            Some(i) => {
                match direction {
                    PrefixDirection::Read => self.queues[i].reads.push(context_id),
                    PrefixDirection::Send => self.queues[i].sends.push(context_id),
                }
                proof {
                    self.view@ = with_added(v0, name, direction, context_id);
                    assert forall|n: Name| #[trigger] self.view@.contains_key(n) implies exists|j: int|
                        0 <= j < self.queues@.len() && #[trigger] self.queues@[j].name == n by {
                        if n != name {
                            let j = choose|j: int| 0 <= j < old(self).queues@.len() && #[trigger] old(self).queues@[j].name == n;
                            assert(self.queues@[j].name == n);
                        } else {
                            assert(self.queues@[i as int].name == n);
                        }
                    }
                }
            },
            None => {
                let mut q = NameQueue { name, reads: Vec::new(), sends: Vec::new() };
                match direction {
                    PrefixDirection::Read => q.reads.push(context_id),
                    PrefixDirection::Send => q.sends.push(context_id),
                }
                self.queues.push(q);
                proof {
                    self.view@ = with_added(v0, name, direction, context_id);
                    assert(queue_of(v0, name, PrefixDirection::Read) =~= Seq::<ContextId>::empty());
                    assert(queue_of(v0, name, PrefixDirection::Send) =~= Seq::<ContextId>::empty());
                    let last = self.queues@.len() - 1;
                    assert(self.queues@[last].name == name);
                    assert forall|n: Name| #[trigger] self.view@.contains_key(n) implies exists|j: int|
                        0 <= j < self.queues@.len() && #[trigger] self.queues@[j].name == n by {
                        if n != name {
                            let j = choose|j: int| 0 <= j < old(self).queues@.len() && #[trigger] old(self).queues@[j].name == n;
                            assert(self.queues@[j].name == n);
                        } else {
                            assert(self.queues@[last].name == n);
                        }
                    }
                }
            },
        }
    }

    /// Takes the least ready name off the index, with the oldest reader and
    /// the oldest sender waiting on it.  Every other context that waited on
    /// that name leaves the index with it.
    pub fn next(&mut self) -> (r: Option<(Name, ContextId, ContextId)>)
        requires
            old(self).wf(),
        ensures
            final(self).wf(),
            r is None ==> {
                &&& forall|n: Name| !#[trigger] is_ready(old(self)@, n)
                &&& final(self)@ == old(self)@
            },
            r is Some ==> {
                let (n, rd, sd) = r->0;
                &&& is_first_ready(old(self)@, n)
                &&& rd == old(self)@[n].0[0]
                &&& sd == old(self)@[n].1[0]
                &&& final(self)@ == old(self)@.remove(n)
            },
    {
        let mut best: Option<usize> = None;
        let mut i: usize = 0;
        while i < self.queues.len()
            invariant
                self.wf(),
                i <= self.queues@.len(),
                match best {
                    Some(b) => {
                        &&& b < i
                        &&& self.queues@[b as int].reads@.len() > 0
                        &&& self.queues@[b as int].sends@.len() > 0
                        &&& forall|j: int|
                            0 <= j < i && #[trigger] self.queues@[j].reads@.len() > 0
                                && self.queues@[j].sends@.len() > 0 ==> j == b || name_lt(
                                self.queues@[b as int].name,
                                self.queues@[j].name,
                            )
                    },
                    None => forall|j: int|
                        0 <= j < i ==> !(#[trigger] self.queues@[j].reads@.len() > 0
                            && self.queues@[j].sends@.len() > 0),
                },
            decreases self.queues@.len() - i,
        {
            let ready = self.queues[i].reads.len() > 0 && self.queues[i].sends.len() > 0;
            if ready {
                match best {
                    None => {
                        best = Some(i);
                    },
                    Some(b) => {
                        if self.queues[i].name.less_than(&self.queues[b].name) {
                            proof {
                                assert forall|j: int|
                                    0 <= j < i && #[trigger] self.queues@[j].reads@.len() > 0
                                        && self.queues@[j].sends@.len() > 0 implies j == b
                                    || name_lt(self.queues@[i as int].name, self.queues@[j].name) by {
                                    if j != b {
                                        lemma_name_order(
                                            self.queues@[i as int].name,
                                            self.queues@[b as int].name,
                                            self.queues@[j].name,
                                        );
                                    }
                                }
                                assert(self.queues@[i as int].name != self.queues@[b as int].name);
                                lemma_name_order(self.queues@[i as int].name, self.queues@[b as int].name, self.queues@[b as int].name);
                            }
                            best = Some(i);
                        } else {
                            proof {
                                lemma_name_order(self.queues@[i as int].name, self.queues@[b as int].name, self.queues@[b as int].name);
                                assert(self.queues@[i as int].name != self.queues@[b as int].name);
                            }
                        }
                    },
                }
            }
            i = i + 1;
        }
        match best {
            None => {
                proof {
                    assert forall|n: Name| !#[trigger] is_ready(self.view@, n) by {
                        if self.view@.contains_key(n) {
                            let j = choose|j: int| 0 <= j < self.queues@.len() && #[trigger] self.queues@[j].name == n;
                        }
                    }
                }
                None
            },
            Some(b) => {
                let ghost v0 = self.view@;
                let ghost qs = self.queues@;
                let ghost n = qs[b as int].name;
                proof {
                    assert forall|m: Name| #[trigger] is_ready(v0, m) implies m == n || name_lt(n, m) by {
                        let j = choose|j: int| 0 <= j < qs.len() && #[trigger] qs[j].name == m;
                        if j != b {
                            assert(qs[j].reads@.len() > 0 && qs[j].sends@.len() > 0);
                        }
                    }
                }
                let q = self.queues.remove(b);
                let name = q.name;
                let rd = q.reads[0];
                let sd = q.sends[0];
                proof {
                    self.view@ = v0.remove(n);
                    assert forall|i: int, j: int|
                        0 <= i < j < self.queues@.len() implies #[trigger] self.queues@[i].name
                            != #[trigger] self.queues@[j].name by {
                        let i0 = if i < b { i } else { i + 1 };
                        let j0 = if j < b { j } else { j + 1 };
                        assert(self.queues@[i].name == qs[i0].name);
                        assert(self.queues@[j].name == qs[j0].name);
                    }
                    assert forall|i: int| 0 <= i < self.queues@.len() implies {
                        &&& self.view@.contains_key(#[trigger] self.queues@[i].name)
                        &&& self.view@[self.queues@[i].name] == (
                            self.queues@[i].reads@,
                            self.queues@[i].sends@,
                        )
                    } by {
                        let i0 = if i < b { i } else { i + 1 };
                        assert(self.queues@[i] == qs[i0]);
                        assert(qs[i0].name != n);
                    }
                    assert forall|m: Name| #[trigger] self.view@.contains_key(m) implies exists|j: int|
                        0 <= j < self.queues@.len() && #[trigger] self.queues@[j].name == m by {
                        let j = choose|j: int| 0 <= j < qs.len() && #[trigger] qs[j].name == m;
                        if j < b {
                            assert(self.queues@[j].name == m);
                        } else {
                            assert(self.queues@[j - 1].name == m);
                        }
                    }
                }
                Some((name, rd, sd))
            },
        }
    }

    /// Takes the oldest occurrence of `context_id` off the queue of `name` in
    /// `direction`, if it is there.
    pub fn remove(&mut self, name: &Name, direction: PrefixDirection, context_id: &ContextId)
        requires
            old(self).wf(),
        ensures
            final(self).wf(),
            final(self)@ == with_removed(old(self)@, *name, direction, *context_id),
    {
        let ghost v0 = self.view@;
        match self.find(name) {
            None => {},
            Some(i) => {
                let ghost q0 = match direction {
                    PrefixDirection::Read => self.queues@[i as int].reads@,
                    PrefixDirection::Send => self.queues@[i as int].sends@,
                };
                let mut k: usize = 0;
                let len = match direction {
                    PrefixDirection::Read => self.queues[i].reads.len(),
                    PrefixDirection::Send => self.queues[i].sends.len(),
                };
                let mut found = false;
                while k < len && !found
                    invariant
                        self.wf(),
                        self.view@ == v0,
                        i < self.queues@.len(),
                        self.queues@[i as int].name == *name,
                        q0 == match direction {
                            PrefixDirection::Read => self.queues@[i as int].reads@,
                            PrefixDirection::Send => self.queues@[i as int].sends@,
                        },
                        len == q0.len(),
                        k <= len,
                        found ==> (k < len && q0[k as int] == *context_id),
                        forall|j: int| 0 <= j < k ==> q0[j] != *context_id,
                    decreases len - k + (if found { 0int } else { 1int }),
                {
                    let x = match direction {
                        PrefixDirection::Read => self.queues[i].reads[k],
                        PrefixDirection::Send => self.queues[i].sends[k],
                    };
                    if x == *context_id {
                        found = true;
                    } else {
                        k = k + 1;
                    }
                }
                if found {
                    proof {
                        lemma_remove_first_at(q0, *context_id, k as int);
                    }
                    match direction {
                        PrefixDirection::Read => {
                            self.queues[i].reads.remove(k);
                        },
                        PrefixDirection::Send => {
                            self.queues[i].sends.remove(k);
                        },
                    }
                    proof {
                        self.view@ = with_removed(v0, *name, direction, *context_id);
                        assert forall|n: Name| #[trigger] self.view@.contains_key(n) implies exists|j: int|
                            0 <= j < self.queues@.len() && #[trigger] self.queues@[j].name == n by {
                            if n != *name {
                                let j = choose|j: int| 0 <= j < old(self).queues@.len() && #[trigger] old(self).queues@[j].name == n;
                                assert(self.queues@[j].name == n);
                            } else {
                                assert(self.queues@[i as int].name == n);
                            }
                        }
                    }
                } else {
                    proof {
                        lemma_remove_first_absent(q0, *context_id);
                        assert(with_removed(v0, *name, direction, *context_id) =~= v0);
                    }
                }
            },
        }
    }
}

} // verus!
