use vstd::prelude::*;

verus! {

/// How many elements of `s` satisfy `f`.
pub open spec fn count_where<A>(s: Seq<A>, f: spec_fn(A) -> bool) -> nat
    decreases s.len(),
{
    if s.len() == 0 {
        0
    } else {
        count_where(s.drop_last(), f) + if f(s.last()) { 1nat } else { 0nat }
    }
}

/// The test for being equal to `x`.
pub open spec fn eq_to<A>(x: A) -> spec_fn(A) -> bool {
    |y: A| y == x
}

/// How many times `x` occurs in `s`.
pub open spec fn count_of<A>(s: Seq<A>, x: A) -> nat {
    count_where(s, eq_to(x))
}

/// `s` without its first occurrence of `x`; `s` itself when `x` does not occur.
pub open spec fn remove_first<A>(s: Seq<A>, x: A) -> Seq<A>
    decreases s.len(),
{
    if s.len() == 0 {
        s
    } else if s[0] == x {
        s.drop_first()
    } else {
        seq![s[0]].add(remove_first(s.drop_first(), x))
    }
}

pub proof fn lemma_count_append<A>(a: Seq<A>, b: Seq<A>, f: spec_fn(A) -> bool)
    ensures
        count_where(a + b, f) == count_where(a, f) + count_where(b, f),
    decreases b.len(),
{
    if b.len() == 0 {
        assert(a + b =~= a);
    } else {
        lemma_count_append(a, b.drop_last(), f);
        assert((a + b).drop_last() =~= a + b.drop_last());
    }
}

pub proof fn lemma_count_push<A>(a: Seq<A>, x: A, f: spec_fn(A) -> bool)
    ensures
        count_where(a.push(x), f) == count_where(a, f) + if f(x) { 1nat } else { 0nat },
{
    assert(a.push(x).drop_last() =~= a);
}

pub proof fn lemma_count_single<A>(x: A, f: spec_fn(A) -> bool)
    ensures
        count_where(seq![x], f) == if f(x) { 1nat } else { 0nat },
{
    assert(seq![x].drop_last() =~= Seq::<A>::empty());
    assert(count_where(Seq::<A>::empty(), f) == 0);
    assert(seq![x].last() == x);
}

/// The count is positive exactly when some element satisfies `f`.
pub proof fn lemma_count_pos<A>(s: Seq<A>, f: spec_fn(A) -> bool)
    ensures
        (count_where(s, f) > 0) <==> (exists|i: int| 0 <= i < s.len() && f(#[trigger] s[i])),
    decreases s.len(),
{
    if s.len() > 0 {
        lemma_count_pos(s.drop_last(), f);
        if count_where(s.drop_last(), f) > 0 {
            let i = choose|i: int| 0 <= i < s.drop_last().len() && f(#[trigger] s.drop_last()[i]);
            assert(s[i] == s.drop_last()[i]);
        }
        assert forall|i: int| 0 <= i < s.len() - 1 implies s[i] == s.drop_last()[i] by {}
    }
}

/// A count is at most the length.
pub proof fn lemma_count_le_len<A>(s: Seq<A>, f: spec_fn(A) -> bool)
    ensures
        count_where(s, f) <= s.len(),
    decreases s.len(),
{
    if s.len() > 0 {
        lemma_count_le_len(s.drop_last(), f);
    }
}

/// Removing at the first occurrence is `remove_first`.
pub proof fn lemma_remove_first_at<A>(s: Seq<A>, x: A, i: int)
    requires
        0 <= i < s.len(),
        s[i] == x,
        forall|j: int| 0 <= j < i ==> s[j] != x,
    ensures
        remove_first(s, x) == s.remove(i),
    decreases i,
{
    if i == 0 {
        assert(s.drop_first() =~= s.remove(0));
    } else {
        let t = s.drop_first();
        assert forall|j: int| 0 <= j < i - 1 implies t[j] != x by {
            assert(t[j] == s[j + 1]);
        }
        lemma_remove_first_at(t, x, i - 1);
        assert(seq![s[0]].add(t.remove(i - 1)) =~= s.remove(i));
    }
}

/// `remove_first` of an absent element changes nothing.
pub proof fn lemma_remove_first_absent<A>(s: Seq<A>, x: A)
    requires
        forall|j: int| 0 <= j < s.len() ==> s[j] != x,
    ensures
        remove_first(s, x) == s,
    decreases s.len(),
{
    if s.len() > 0 {
        let t = s.drop_first();
        assert forall|j: int| 0 <= j < t.len() implies t[j] != x by {
            assert(t[j] == s[j + 1]);
        }
        lemma_remove_first_absent(t, x);
        assert(seq![s[0]].add(t) =~= s);
    }
}

/// `remove_first` lowers the count of whatever it takes out, if anything,
/// and no other count.
pub proof fn lemma_count_remove_first<A>(s: Seq<A>, x: A, f: spec_fn(A) -> bool)
    ensures
        count_where(remove_first(s, x), f) <= count_where(s, f),
        (exists|i: int| 0 <= i < s.len() && s[i] == x) && f(x) ==>
            count_where(remove_first(s, x), f) + 1 == count_where(s, f),
        !f(x) ==> count_where(remove_first(s, x), f) == count_where(s, f),
    decreases s.len(),
{
    if s.len() > 0 {
        let t = s.drop_first();
        assert(s =~= seq![s[0]] + t);
        lemma_count_append(seq![s[0]], t, f);
        lemma_count_single(s[0], f);
        if s[0] == x {
        } else {
            lemma_count_remove_first(t, x, f);
            lemma_count_append(seq![s[0]], remove_first(t, x), f);
            if exists|i: int| 0 <= i < s.len() && s[i] == x {
                let i = choose|i: int| 0 <= i < s.len() && s[i] == x;
                assert(t[i - 1] == x);
            }
        }
    }
}

} // verus!
