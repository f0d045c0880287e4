//! Facts about keeping the elements of a sequence that satisfy a predicate.

use vstd::prelude::*;

verus! {

/// Keeping the elements that satisfy `p` keeps all of them when all do.
pub proof fn lemma_filter_all<A>(s: Seq<A>, p: spec_fn(A) -> bool)
    requires
        forall|j: int| 0 <= j < s.len() ==> p(#[trigger] s[j]),
    ensures
        s.filter(p) == s,
    decreases s.len(),
{
    if s.len() > 0 {
        let d = s.drop_last();
        assert forall|j: int| 0 <= j < d.len() implies p(#[trigger] d[j]) by {
            assert(d[j] == s[j]);
        }
        lemma_filter_all(d, p);
        assert(s =~= d.push(s.last()));
        d.lemma_filter_push(s.last(), p);
    } else {
        reveal(Seq::filter);
    }
}

/// Keeping the elements that satisfy `p` keeps none when none does.
pub proof fn lemma_filter_none<A>(s: Seq<A>, p: spec_fn(A) -> bool)
    requires
        forall|j: int| 0 <= j < s.len() ==> !p(#[trigger] s[j]),
    ensures
        s.filter(p) == Seq::<A>::empty(),
    decreases s.len(),
{
    if s.len() > 0 {
        let d = s.drop_last();
        assert forall|j: int| 0 <= j < d.len() implies !p(#[trigger] d[j]) by {
            assert(d[j] == s[j]);
        }
        lemma_filter_none(d, p);
        assert(s =~= d.push(s.last()));
        d.lemma_filter_push(s.last(), p);
    } else {
        reveal(Seq::filter);
        assert(s.filter(p) =~= Seq::<A>::empty());
    }
}

/// When every element but the one at `i` satisfies `p`, keeping those that
/// do removes exactly that one.
pub proof fn lemma_filter_all_but<A>(s: Seq<A>, p: spec_fn(A) -> bool, i: int)
    requires
        0 <= i < s.len(),
        !p(s[i]),
        forall|j: int| 0 <= j < s.len() && j != i ==> p(#[trigger] s[j]),
    ensures
        s.filter(p) == s.remove(i),
    decreases s.len(),
{
    let d = s.drop_last();
    assert(s =~= d.push(s.last()));
    d.lemma_filter_push(s.last(), p);
    if i == s.len() - 1 {
        assert forall|j: int| 0 <= j < d.len() implies p(#[trigger] d[j]) by {
            assert(d[j] == s[j]);
        }
        lemma_filter_all(d, p);
        assert(s.remove(i) =~= d);
    } else {
        assert forall|j: int| 0 <= j < d.len() && j != i implies p(#[trigger] d[j]) by {
            assert(d[j] == s[j]);
        }
        assert(d[i] == s[i]);
        lemma_filter_all_but(d, p, i);
        assert(p(s[s.len() - 1]));
        assert(s.remove(i) =~= d.remove(i).push(s.last()));
    }
}

/// When the element at `i` is the only one that satisfies `p`, keeping those
/// that do keeps exactly that one.
pub proof fn lemma_filter_only<A>(s: Seq<A>, p: spec_fn(A) -> bool, i: int)
    requires
        0 <= i < s.len(),
        p(s[i]),
        forall|j: int| 0 <= j < s.len() && j != i ==> !p(#[trigger] s[j]),
    ensures
        s.filter(p) == seq![s[i]],
    decreases s.len(),
{
    let d = s.drop_last();
    assert(s =~= d.push(s.last()));
    d.lemma_filter_push(s.last(), p);
    if i == s.len() - 1 {
        assert forall|j: int| 0 <= j < d.len() implies !p(#[trigger] d[j]) by {
            assert(d[j] == s[j]);
        }
        lemma_filter_none(d, p);
        assert(Seq::<A>::empty().push(s[i]) =~= seq![s[i]]);
    } else {
        assert forall|j: int| 0 <= j < d.len() && j != i implies !p(#[trigger] d[j]) by {
            assert(d[j] == s[j]);
        }
        assert(d[i] == s[i]);
        lemma_filter_only(d, p, i);
        assert(!p(s[s.len() - 1]));
    }
}

/// Every element kept by a filter is an element of the sequence that
/// satisfies the predicate.
pub proof fn lemma_filter_elem<A>(s: Seq<A>, p: spec_fn(A) -> bool, j: int)
    requires
        0 <= j < s.filter(p).len(),
    ensures
        p(s.filter(p)[j]),
        s.contains(s.filter(p)[j]),
{
    s.lemma_filter_pred(p, j);
    assert(s.filter(p).contains(s.filter(p)[j]));
    s.lemma_filter_contains_rev(p, s.filter(p)[j]);
}

} // verus!
