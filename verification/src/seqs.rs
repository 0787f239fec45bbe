//! Facts about sequences: filtering keeps order.

use vstd::prelude::*;

verus! {

/// Where the `i`-th element that passes a filter comes from.
pub open spec fn source<A>(s: Seq<A>, p: spec_fn(A) -> bool, i: int) -> int
    decreases s.len(),
{
    if s.len() == 0 {
        0
    } else if i < s.drop_last().filter(p).len() {
        source(s.drop_last(), p, i)
    } else {
        s.len() - 1
    }
}

pub proof fn lemma_source<A>(s: Seq<A>, p: spec_fn(A) -> bool, i: int)
    requires
        0 <= i < s.filter(p).len(),
    ensures
        0 <= source(s, p, i) < s.len(),
        s[source(s, p, i)] == s.filter(p)[i],
        p(s.filter(p)[i]),
    decreases s.len(),
{
    reveal(Seq::filter);
    if i < s.drop_last().filter(p).len() {
        lemma_source(s.drop_last(), p, i);
    }
}

pub proof fn lemma_source_ascends<A>(s: Seq<A>, p: spec_fn(A) -> bool, i: int, j: int)
    requires
        0 <= i < j < s.filter(p).len(),
    ensures
        source(s, p, i) < source(s, p, j),
    decreases s.len(),
{
    reveal(Seq::filter);
    if j < s.drop_last().filter(p).len() {
        lemma_source_ascends(s.drop_last(), p, i, j);
    } else {
        lemma_source(s.drop_last(), p, i);
    }
}

/// What passes a filter is found behind it.
pub proof fn lemma_filter_has<A>(s: Seq<A>, p: spec_fn(A) -> bool, k: int) -> (i: int)
    requires
        0 <= k < s.len(),
        p(s[k]),
    ensures
        0 <= i < s.filter(p).len(),
        s.filter(p)[i] == s[k],
    decreases s.len(),
{
    reveal(Seq::filter);
    if k == s.len() - 1 {
        s.filter(p).len() - 1
    } else {
        lemma_filter_has(s.drop_last(), p, k)
    }
}

/// Filtering a sequence whose elements all pass changes nothing.
pub proof fn lemma_filter_all<A>(s: Seq<A>, p: spec_fn(A) -> bool)
    requires
        forall|i: int| 0 <= i < s.len() ==> p(#[trigger] s[i]),
    ensures
        s.filter(p) == s,
    decreases s.len(),
{
    reveal(Seq::filter);
    if s.len() > 0 {
        lemma_filter_all(s.drop_last(), p);
        assert(s.drop_last().push(s.last()) == s);
    }
}

/// Filtering a sequence where nothing passes leaves nothing.
pub proof fn lemma_filter_none<A>(s: Seq<A>, p: spec_fn(A) -> bool)
    requires
        forall|i: int| 0 <= i < s.len() ==> !p(#[trigger] s[i]),
    ensures
        s.filter(p).len() == 0,
    decreases s.len(),
{
    reveal(Seq::filter);
    if s.len() > 0 {
        lemma_filter_none(s.drop_last(), p);
    }
}

/// Filters that agree on a sequence leave the same of it.
pub proof fn lemma_filter_same<A>(s: Seq<A>, p: spec_fn(A) -> bool, q: spec_fn(A) -> bool)
    requires
        forall|i: int| 0 <= i < s.len() ==> p(#[trigger] s[i]) == q(s[i]),
    ensures
        s.filter(p) == s.filter(q),
    decreases s.len(),
{
    reveal(Seq::filter);
    if s.len() > 0 {
        assert forall|i: int| 0 <= i < s.drop_last().len() implies p(
            #[trigger] s.drop_last()[i],
        ) == q(s.drop_last()[i]) by {
            assert(s.drop_last()[i] == s[i]);
        }
        lemma_filter_same(s.drop_last(), p, q);
        assert(s.last() == s[s.len() - 1]);
    }
}

/// Filtering the first `n + 1` elements, in terms of the first `n`.
pub proof fn lemma_filter_step<A>(s: Seq<A>, p: spec_fn(A) -> bool, n: int)
    requires
        0 <= n < s.len(),
    ensures
        s.take(n + 1).filter(p) == (if p(s[n]) {
            s.take(n).filter(p).push(s[n])
        } else {
            s.take(n).filter(p)
        }),
{
    reveal(Seq::filter);
    assert(s.take(n + 1).drop_last() == s.take(n));
    assert(s.take(n + 1).last() == s[n]);
}

/// A sweep in place: everything before `i` passed, everything from `i` on is
/// still to be looked at. Stepping over or taking out the element at `i` keeps
/// it so.
pub proof fn lemma_sweep<A>(base: Seq<A>, keep: spec_fn(A) -> bool, j: int, now: Seq<A>, i: int)
    requires
        0 <= j <= base.len(),
        now == base.take(j).filter(keep) + base.skip(j),
        i == base.take(j).filter(keep).len(),
        i < now.len(),
    ensures
        j < base.len(),
        now[i] == base[j],
        keep(base[j]) ==> now == base.take(j + 1).filter(keep) + base.skip(j + 1) && i + 1
            == base.take(j + 1).filter(keep).len(),
        !keep(base[j]) ==> now.remove(i) == base.take(j + 1).filter(keep) + base.skip(j + 1) && i
            == base.take(j + 1).filter(keep).len(),
{
    lemma_filter_step(base, keep, j);
    assert(base.skip(j)[0] == base[j]);
    assert(base.skip(j).drop_first() == base.skip(j + 1));
}

/// A sweep starts with nothing passed and ends with everything filtered.
pub proof fn lemma_sweep_ends<A>(base: Seq<A>, keep: spec_fn(A) -> bool)
    ensures
        base.take(0).filter(keep) == Seq::<A>::empty(),
        base.take(0).filter(keep) + base.skip(0) == base,
        base.take(base.len() as int).filter(keep) + base.skip(base.len() as int) == base.filter(
            keep,
        ),
        base.filter(keep).len() <= base.len(),
{
    reveal(Seq::filter);
    assert(base.take(0) == Seq::<A>::empty());
    assert(base.take(0).filter(keep) == Seq::<A>::empty());
    assert(base.skip(0) == base);
    assert(base.take(base.len() as int) == base);
    assert(base.skip(base.len() as int) == Seq::<A>::empty());
    base.lemma_filter_len(keep);
}

/// The last element comes first in reverse.
pub proof fn lemma_reverse_push<A>(s: Seq<A>, a: A)
    ensures
        s.push(a).reverse() == seq![a] + s.reverse(),
{
}

} // verus!
