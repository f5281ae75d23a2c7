//! Helpers over vectors and their sequences.

use vstd::prelude::*;

verus! {

/// Drops the entries that `keep` refuses; the others stay in order. `p` says
/// what `keep` answers.
pub fn retain<T, F: Fn(&T) -> bool>(v: &mut Vec<T>, keep: F, Ghost(p): Ghost<spec_fn(T) -> bool>)
    requires
        forall|t: T| call_requires(keep, (&t,)),
        forall|t: T, b: bool| call_ensures(keep, (&t,), b) ==> b == p(t),
    ensures
        final(v)@ == old(v)@.filter(p),
{
    let ghost all = v@;
    let ghost mut k: int = 0;
    let mut i: usize = 0;
    assert(all.take(0).filter(p) =~= Seq::empty()) by {
        reveal(Seq::filter);
    }
    assert(v@ =~= all.take(0).filter(p) + all.skip(0));
    while i < v.len()
        invariant
            0 <= k <= all.len(),
            forall|t: T| call_requires(keep, (&t,)),
            forall|t: T, b: bool| call_ensures(keep, (&t,), b) ==> b == p(t),
            v@ == all.take(k).filter(p) + all.skip(k),
            i == all.take(k).filter(p).len(),
        decreases all.len() - k,
    {
        let ghost before = v@;
        let ghost done = all.take(k).filter(p);
        proof {
            reveal(Seq::filter);
            assert(v@[i as int] == all.skip(k)[0]);
            assert(v@[i as int] == all[k]);
            assert(all.take(k + 1).drop_last() =~= all.take(k));
            assert(all.take(k + 1).last() == all[k]);
        }
        if keep(&v[i]) {
            assert(v@ =~= done.push(all[k]) + all.skip(k + 1));
            i += 1;
        } else {
            v.remove(i);
            assert(v@ =~= done + all.skip(k + 1));
        }
        proof {
            k = k + 1;
        }
    }
    proof {
        assert(all.skip(k).len() == 0);
        assert(all.take(k) =~= all);
        assert(v@ =~= all.filter(p));
    }
}

/// What `f` gives for the entries, in order, without those that it gives nothing
/// for.
pub open spec fn picked<T, U>(s: Seq<T>, f: spec_fn(T) -> Option<U>) -> Seq<U>
    decreases s.len(),
{
    if s.len() == 0 {
        Seq::empty()
    } else {
        let head = picked(s.drop_last(), f);
        match f(s.last()) {
            Some(u) => head.push(u),
            None => head,
        }
    }
}

/// What `pick` gives for the entries, in order, without those that it gives
/// nothing for. `f` says what `pick` gives.
pub fn pick_map<T, U, F: Fn(&T) -> Option<U>>(
    v: &Vec<T>,
    pick: F,
    Ghost(f): Ghost<spec_fn(T) -> Option<U>>,
) -> (r: Vec<U>)
    requires
        forall|i: int| 0 <= i < v@.len() ==> call_requires(pick, (&#[trigger] v@[i],)),
        forall|t: T, u: Option<U>| call_ensures(pick, (&t,), u) ==> u == f(t),
    ensures
        r@ == picked(v@, f),
{
    let mut r: Vec<U> = Vec::new();
    let mut i: usize = 0;
    while i < v.len()
        invariant
            i <= v@.len(),
            forall|j: int| 0 <= j < v@.len() ==> call_requires(pick, (&#[trigger] v@[j],)),
            forall|t: T, u: Option<U>| call_ensures(pick, (&t,), u) ==> u == f(t),
            r@ == picked(v@.take(i as int), f),
        decreases v@.len() - i,
    {
        assert(v@.take(i + 1).drop_last() =~= v@.take(i as int));
        match pick(&v[i]) {
            Some(u) => r.push(u),
            None => {},
        }
        i += 1;
    }
    assert(v@.take(i as int) =~= v@);
    r
}

/// A copy of a list.
pub fn copy_vec<T: Copy>(v: &Vec<T>) -> (r: Vec<T>)
    ensures
        r@ == v@,
{
    let mut r: Vec<T> = Vec::new();
    let mut i: usize = 0;
    while i < v.len()
        invariant
            i <= v@.len(),
            r@ == v@.take(i as int),
        decreases v@.len() - i,
    {
        r.push(v[i]);
        i += 1;
    }
    assert(v@.take(i as int) =~= v@);
    r
}

/// Filtering drops nothing where every entry passes.
pub proof fn lemma_filter_all<A>(s: Seq<A>, p: spec_fn(A) -> bool)
    requires
        forall|i: int| 0 <= i < s.len() ==> p(#[trigger] s[i]),
    ensures
        s.filter(p) == s,
    decreases s.len(),
{
    reveal(Seq::filter);
    if s.len() > 0 {
        lemma_filter_all(s.drop_last(), p);
        assert(s.drop_last().push(s.last()) =~= s);
    }
}

/// Filtering drops one entry where only that one does not pass.
pub proof fn lemma_filter_remove<A>(s: Seq<A>, p: spec_fn(A) -> bool, i: int)
    requires
        0 <= i < s.len(),
        !p(s[i]),
        forall|j: int| 0 <= j < s.len() && j != i ==> p(#[trigger] s[j]),
    ensures
        s.filter(p) == s.remove(i),
    decreases s.len(),
{
    reveal(Seq::filter);
    if i == s.len() - 1 {
        lemma_filter_all(s.drop_last(), p);
        assert(s.remove(i) =~= s.drop_last());
    } else {
        lemma_filter_remove(s.drop_last(), p, i);
        assert(s.remove(i) =~= s.drop_last().remove(i).push(s.last()));
    }
}

/// Filtering leaves nothing where nothing passes.
pub proof fn lemma_filter_none<A>(s: Seq<A>, p: spec_fn(A) -> bool)
    requires
        forall|i: int| 0 <= i < s.len() ==> !p(#[trigger] s[i]),
    ensures
        s.filter(p) == Seq::<A>::empty(),
    decreases s.len(),
{
    reveal(Seq::filter);
    if s.len() > 0 {
        lemma_filter_none(s.drop_last(), p);
    }
}

/// Filtering leaves one entry where only that one passes.
pub proof fn lemma_filter_only<A>(s: Seq<A>, p: spec_fn(A) -> bool, i: int)
    requires
        0 <= i < s.len(),
        p(s[i]),
        forall|j: int| 0 <= j < s.len() && j != i ==> !p(#[trigger] s[j]),
    ensures
        s.filter(p) == seq![s[i]],
    decreases s.len(),
{
    reveal(Seq::filter);
    if i == s.len() - 1 {
        lemma_filter_none(s.drop_last(), p);
        assert(s.filter(p) =~= seq![s[i]]);
    } else {
        lemma_filter_only(s.drop_last(), p, i);
    }
}

/// A list with one more entry holds that entry and those it held.
pub proof fn lemma_push_contains<A>(s: Seq<A>, a: A, x: A)
    ensures
        s.push(a).contains(x) <==> s.contains(x) || x == a,
{
    if s.contains(x) {
        let k = choose|k: int| 0 <= k < s.len() && s[k] == x;
        assert(s.push(a)[k] == x);
    }
    assert(s.push(a)[s.len() as int] == a);
    if s.push(a).contains(x) {
        let k = choose|k: int| 0 <= k < s.push(a).len() && s.push(a)[k] == x;
        if k < s.len() {
            assert(s[k] == x);
        }
    }
}

/// What passes a filter is what was there and passes.
pub proof fn lemma_filter_in<A>(s: Seq<A>, p: spec_fn(A) -> bool, x: A)
    ensures
        s.filter(p).contains(x) <==> s.contains(x) && p(x),
    decreases s.len(),
{
    reveal(Seq::filter);
    if s.len() > 0 {
        let t = s.drop_last();
        let l = s.last();
        lemma_filter_in(t, p, x);
        assert(s =~= t.push(l));
        lemma_push_contains(t, l, x);
        lemma_push_contains(t.filter(p), l, x);
    } else {
        assert(!s.filter(p).contains(x));
    }
}

/// Filtering twice keeps what passes both.
pub proof fn lemma_filter_twice<A>(
    s: Seq<A>,
    p: spec_fn(A) -> bool,
    q: spec_fn(A) -> bool,
    r: spec_fn(A) -> bool,
)
    requires
        forall|x: A| #[trigger] r(x) == (p(x) && q(x)),
    ensures
        s.filter(p).filter(q) == s.filter(r),
    decreases s.len(),
{
    reveal(Seq::filter);
    if s.len() > 0 {
        let t = s.drop_last();
        lemma_filter_twice(t, p, q, r);
        assert(r(s.last()) == (p(s.last()) && q(s.last())));
        if p(s.last()) {
            assert(t.filter(p).push(s.last()).drop_last() =~= t.filter(p));
        }
    }
}

/// What is picked from two lists behind each other is what is picked from the one and
/// then from the other; from a list of one entry, what there is for it.
pub proof fn law_picked_in_order<T, U>(a: Seq<T>, b: Seq<T>, f: spec_fn(T) -> Option<U>, t: T)
    ensures
        picked(a + b, f) == picked(a, f) + picked(b, f),
        picked(Seq::<T>::empty(), f).len() == 0,
        f(t) matches Some(u) ==> picked(seq![t], f) == seq![u],
        f(t) is None ==> picked(seq![t], f).len() == 0,
    decreases b.len(),
{
    reveal_with_fuel(picked, 2);
    assert(seq![t].drop_last() =~= Seq::empty());
    assert(seq![t].last() == t);
    if f(t) is Some {
        assert(picked(seq![t], f) =~= seq![f(t)->0]);
    }
    if b.len() > 0 {
        law_picked_in_order(a, b.drop_last(), f, t);
        assert((a + b).drop_last() =~= a + b.drop_last());
        assert((a + b).last() == b.last());
        assert(picked(a + b, f) =~= picked(a, f) + picked(b, f));
    } else {
        assert(a + b =~= a);
        assert(picked(a + b, f) =~= picked(a, f) + picked(b, f));
    }
}

/// What is picked from a list is what there is for its entries, and nothing else.
pub proof fn law_picked_members<T, U>(s: Seq<T>, f: spec_fn(T) -> Option<U>, u: U)
    ensures
        picked(s, f).contains(u) <==> exists|i: int|
            0 <= i < s.len() && f(#[trigger] s[i]) == Some(u),
    decreases s.len(),
{
    if s.len() > 0 {
        let t = s.drop_last();
        law_picked_members(t, f, u);
        assert(s.last() == s[s.len() - 1]);
        if f(s.last()) is Some {
            lemma_push_contains(picked(t, f), f(s.last())->0, u);
        }
        if exists|i: int| 0 <= i < t.len() && f(#[trigger] t[i]) == Some(u) {
            let i = choose|i: int| 0 <= i < t.len() && f(#[trigger] t[i]) == Some(u);
            assert(f(s[i]) == Some(u));
        }
        if exists|i: int| 0 <= i < s.len() && f(#[trigger] s[i]) == Some(u) {
            let i = choose|i: int| 0 <= i < s.len() && f(#[trigger] s[i]) == Some(u);
            if i < t.len() {
                assert(f(t[i]) == Some(u));
            }
        }
    }
}

} // verus!
