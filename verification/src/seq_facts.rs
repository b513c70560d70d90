//! General facts about `Seq::filter` that the store proofs lean on.

use vstd::prelude::*;

verus! {

/// Pairwise distinctness of the elements of a sequence.
pub open spec fn distinct_seq<A>(s: Seq<A>) -> bool {
    forall|i: int, j: int| 0 <= i < j < s.len() ==> s[i] != s[j]
}

/// Filtering a one-element sequence keeps or drops that element.
pub proof fn lemma_filter_singleton<A>(x: A, p: spec_fn(A) -> bool)
    ensures
        seq![x].filter(p) == (if p(x) {
            seq![x]
        } else {
            Seq::<A>::empty()
        }),
{
    reveal_with_fuel(Seq::filter, 2);
    assert(seq![x].drop_last() =~= Seq::<A>::empty());
    assert(seq![x].last() == x);
    if p(x) {
        assert(seq![x].filter(p) =~= seq![x]);
    } else {
        assert(seq![x].filter(p) =~= Seq::<A>::empty());
    }
}

/// Filtering commutes with pushing one element on the end.
pub proof fn lemma_filter_push<A>(s: Seq<A>, x: A, p: spec_fn(A) -> bool)
    ensures
        s.push(x).filter(p) == (if p(x) {
            s.filter(p).push(x)
        } else {
            s.filter(p)
        }),
{
    assert(s.push(x) =~= s + seq![x]);
    Seq::<A>::filter_distributes_over_add(s, seq![x], p);
    lemma_filter_singleton(x, p);
    if p(x) {
        assert(s.filter(p) + seq![x] =~= s.filter(p).push(x));
    } else {
        assert(s.filter(p) + Seq::<A>::empty() =~= s.filter(p));
    }
}

/// Every element of a filtered sequence comes from the original and
/// satisfies the predicate.
pub proof fn lemma_filter_membership<A>(s: Seq<A>, p: spec_fn(A) -> bool, i: int)
    requires
        0 <= i < s.filter(p).len(),
    ensures
        s.contains(s.filter(p)[i]),
        p(s.filter(p)[i]),
    decreases s.len(),
{
    reveal(Seq::filter);
    if s.len() > 0 {
        let d = s.drop_last();
        if i < d.filter(p).len() {
            lemma_filter_membership(d, p, i);
            let w = choose|k: int| 0 <= k < d.len() && d[k] == d.filter(p)[i];
            assert(s[w] == s.filter(p)[i]);
        } else {
            assert(s[s.len() - 1] == s.filter(p)[i]);
        }
    }
}

/// A filter that accepts every element returns the sequence unchanged.
pub proof fn lemma_filter_all<A>(s: Seq<A>, p: spec_fn(A) -> bool)
    requires
        forall|i: int| 0 <= i < s.len() ==> p(s[i]),
    ensures
        s.filter(p) == s,
    decreases s.len(),
{
    reveal(Seq::filter);
    if s.len() == 0 {
        assert(s.filter(p) =~= s);
    } else {
        let d = s.drop_last();
        lemma_filter_all(d, p);
        assert(p(s.last()));
        assert(s.filter(p) =~= s);
    }
}

/// A filter that rejects every element returns the empty sequence.
pub proof fn lemma_filter_none<A>(s: Seq<A>, p: spec_fn(A) -> bool)
    requires
        forall|i: int| 0 <= i < s.len() ==> !p(s[i]),
    ensures
        s.filter(p) == Seq::<A>::empty(),
    decreases s.len(),
{
    reveal(Seq::filter);
    if s.len() == 0 {
        assert(s.filter(p) =~= Seq::<A>::empty());
    } else {
        let d = s.drop_last();
        lemma_filter_none(d, p);
        assert(!p(s.last()));
        assert(s.filter(p) =~= Seq::<A>::empty());
    }
}

/// The filtered sequence is empty exactly when no element satisfies the
/// predicate.
pub proof fn lemma_filter_empty_iff<A>(s: Seq<A>, p: spec_fn(A) -> bool)
    ensures
        s.filter(p).len() == 0 <==> (forall|i: int| 0 <= i < s.len() ==> !p(s[i])),
{
    if forall|i: int| 0 <= i < s.len() ==> !p(s[i]) {
        lemma_filter_none(s, p);
    }
    if s.filter(p).len() > 0 {
        lemma_filter_membership(s, p, 0);
    } else {
        assert forall|i: int| 0 <= i < s.len() implies !p(s[i]) by {
            if p(s[i]) {
                s.lemma_filter_contains(p, i);
            }
        }
    }
}

/// Filtering preserves pairwise distinctness.
pub proof fn lemma_filter_distinct<A>(s: Seq<A>, p: spec_fn(A) -> bool)
    requires
        distinct_seq(s),
    ensures
        distinct_seq(s.filter(p)),
{
    let f = s.filter(p);
    assert forall|i: int, j: int| 0 <= i < j < f.len() implies f[i] != f[j] by {
        lemma_filter_index_increasing(s, p, i, j);
    }
}

/// Distinct positions of the filtered sequence come from distinct
/// positions of the original, in order.
pub proof fn lemma_filter_index_increasing<A>(s: Seq<A>, p: spec_fn(A) -> bool, i: int, j: int)
    requires
        0 <= i < j < s.filter(p).len(),
        distinct_seq(s),
    ensures
        s.filter(p)[i] != s.filter(p)[j],
    decreases s.len(),
{
    reveal(Seq::filter);
    let d = s.drop_last();
    let f = s.filter(p);
    if j < d.filter(p).len() {
        lemma_filter_index_increasing(d, p, i, j);
    } else {
        // f[j] is the pushed last element of s; f[i] comes from d.
        lemma_filter_membership(d, p, i);
        let w = choose|k: int| 0 <= k < d.len() && d[k] == d.filter(p)[i];
        assert(s[w] == f[i]);
        assert(s[s.len() - 1] == f[j]);
    }
}

/// Pushing keeps earlier membership.
pub proof fn lemma_contains_push<A>(s: Seq<A>, x: A, y: A)
    requires
        s.contains(x),
    ensures
        s.push(y).contains(x),
{
    let k = choose|k: int| 0 <= k < s.len() && s[k] == x;
    assert(s.push(y)[k] == x);
}

/// Mapping commutes with pushing one element on the end.
pub proof fn lemma_map_values_push<A, B>(s: Seq<A>, x: A, f: spec_fn(A) -> B)
    ensures
        s.push(x).map_values(f) == s.map_values(f).push(f(x)),
{
    assert(s.push(x).map_values(f) =~= s.map_values(f).push(f(x)));
}

/// When the images of a sequence's elements are pairwise distinct, so
/// are the images of any filtered subsequence.
pub proof fn lemma_filter_map_distinct<A, B>(s: Seq<A>, p: spec_fn(A) -> bool, f: spec_fn(A) -> B)
    requires
        distinct_seq(s.map_values(f)),
    ensures
        distinct_seq(s.filter(p).map_values(f)),
{
    let g = s.filter(p).map_values(f);
    assert forall|i: int, j: int| 0 <= i < j < g.len() implies g[i] != g[j] by {
        lemma_filter_map_index_increasing(s, p, f, i, j);
    }
}

/// Two positions of a filtered sequence come from two ordered positions
/// of the original, so distinct images stay distinct.
pub proof fn lemma_filter_map_index_increasing<A, B>(
    s: Seq<A>,
    p: spec_fn(A) -> bool,
    f: spec_fn(A) -> B,
    i: int,
    j: int,
)
    requires
        0 <= i < j < s.filter(p).len(),
        distinct_seq(s.map_values(f)),
    ensures
        f(s.filter(p)[i]) != f(s.filter(p)[j]),
    decreases s.len(),
{
    reveal(Seq::filter);
    let d = s.drop_last();
    let g = s.filter(p);
    assert(distinct_seq(d.map_values(f))) by {
        assert(forall|k: int|
            0 <= k < d.len() ==> d.map_values(f)[k] == s.map_values(f)[k]);
    }
    if j < d.filter(p).len() {
        lemma_filter_map_index_increasing(d, p, f, i, j);
    } else {
        lemma_filter_membership(d, p, i);
        let w = choose|k: int| 0 <= k < d.len() && d[k] == d.filter(p)[i];
        assert(s.map_values(f)[w] == f(g[i]));
        assert(s.map_values(f)[s.len() - 1] == f(g[j]));
    }
}

/// In a distinct sequence that contains `x`, exactly one element
/// satisfies a predicate that holds of `x` alone.
pub proof fn lemma_distinct_count_one<A>(s: Seq<A>, x: A, p: spec_fn(A) -> bool)
    requires
        distinct_seq(s),
        s.contains(x),
        forall|y: A| #[trigger] p(y) <==> y == x,
    ensures
        s.filter(p).len() == 1,
    decreases s.len(),
{
    assert(s.len() > 0);
    let d = s.drop_last();
    assert(s =~= d.push(s.last()));
    lemma_filter_push(d, s.last(), p);
    if s.last() == x {
        assert(forall|i: int| 0 <= i < d.len() ==> !p(d[i]));
        lemma_filter_none(d, p);
    } else {
        let w = choose|k: int| 0 <= k < s.len() && s[k] == x;
        assert(d[w] == x);
        assert(d.contains(x));
        lemma_distinct_count_one(d, x, p);
    }
}

} // verus!
