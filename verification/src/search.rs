//! The first element of a sequence that satisfies a predicate.
use vstd::prelude::*;

verus! {

/// `i` is the position of the first element of `s` that satisfies `p`.
pub open spec fn is_first<T>(s: Seq<T>, p: spec_fn(T) -> bool, i: int) -> bool {
    &&& 0 <= i < s.len()
    &&& p(s[i])
    &&& forall|j: int| 0 <= j < i ==> !p(#[trigger] s[j])
}

/// Some element of `s` satisfies `p`.
pub open spec fn any_satisfies<T>(s: Seq<T>, p: spec_fn(T) -> bool) -> bool {
    exists|i: int| 0 <= i < s.len() && p(#[trigger] s[i])
}

/// The position of the first element of `s` that satisfies `p`, if any.
pub open spec fn first_index<T>(s: Seq<T>, p: spec_fn(T) -> bool) -> Option<int> {
    if any_satisfies(s, p) {
        Some(choose|i: int| is_first(s, p, i))
    } else {
        None
    }
}

/// Where an element satisfies `p`, a first such element exists.
pub proof fn lemma_first_exists<T>(s: Seq<T>, p: spec_fn(T) -> bool, i: int)
    requires
        0 <= i < s.len(),
        p(s[i]),
    ensures
        exists|k: int| is_first(s, p, k),
    decreases i,
{
    if exists|j: int| 0 <= j < i && p(#[trigger] s[j]) {
        let j = choose|j: int| 0 <= j < i && p(#[trigger] s[j]);
        lemma_first_exists(s, p, j);
    } else {
        assert(is_first(s, p, i));
    }
}

/// The first position is unique.
pub proof fn lemma_first_unique<T>(s: Seq<T>, p: spec_fn(T) -> bool, i: int, k: int)
    requires
        is_first(s, p, i),
        is_first(s, p, k),
    ensures
        i == k,
{
    if i < k {
        assert(!p(s[i]));
    } else if k < i {
        assert(!p(s[k]));
    }
}

/// `first_index` is the position found by a scan from the front.
pub proof fn lemma_first_index_is<T>(s: Seq<T>, p: spec_fn(T) -> bool, i: int)
    requires
        is_first(s, p, i),
    ensures
        first_index(s, p) == Some(i),
{
    assert(any_satisfies(s, p));
    let k = choose|k: int| is_first(s, p, k);
    lemma_first_unique(s, p, i, k);
}

/// `first_index` is `None` where no element satisfies `p`.
pub proof fn lemma_first_index_none<T>(s: Seq<T>, p: spec_fn(T) -> bool)
    requires
        forall|j: int| 0 <= j < s.len() ==> !p(#[trigger] s[j]),
    ensures
        first_index(s, p) is None,
{
}

/// What `first_index` returns, where it returns a position.
pub proof fn lemma_first_index_some<T>(s: Seq<T>, p: spec_fn(T) -> bool)
    requires
        any_satisfies(s, p),
    ensures
        first_index(s, p) matches Some(i) && is_first(s, p, i),
{
    let i = choose|i: int| 0 <= i < s.len() && p(#[trigger] s[i]);
    lemma_first_exists(s, p, i);
}

/// Elements added at the back do not change a first position already found.
pub proof fn lemma_first_index_prefix<T>(s: Seq<T>, t: Seq<T>, p: spec_fn(T) -> bool)
    requires
        any_satisfies(s, p),
    ensures
        first_index(s + t, p) == first_index(s, p),
{
    lemma_first_index_some(s, p);
    let i = first_index(s, p).unwrap();
    assert(is_first(s + t, p, i)) by {
        assert forall|j: int| 0 <= j < i implies !p(#[trigger] (s + t)[j]) by {
            assert((s + t)[j] == s[j]);
        }
        assert((s + t)[i] == s[i]);
    }
    lemma_first_index_is(s + t, p, i);
}

/// Predicates that agree element by element on two sequences of one length
/// find the same first position.
pub proof fn lemma_first_index_corresponds<A, B>(s: Seq<A>, t: Seq<B>, p: spec_fn(A) -> bool, q: spec_fn(B) -> bool)
    requires
        s.len() == t.len(),
        forall|i: int| 0 <= i < s.len() ==> p(#[trigger] s[i]) == q(t[i]),
    ensures
        first_index(s, p) == first_index(t, q),
{
    if any_satisfies(s, p) {
        lemma_first_index_some(s, p);
        let i = first_index(s, p).unwrap();
        assert(is_first(t, q, i)) by {
            assert forall|j: int| 0 <= j < i implies !q(#[trigger] t[j]) by {
                assert(p(s[j]) == q(t[j]));
            }
            assert(p(s[i]) == q(t[i]));
        }
        lemma_first_index_is(t, q, i);
    } else {
        assert forall|j: int| 0 <= j < t.len() implies !q(#[trigger] t[j]) by {
            assert(p(s[j]) == q(t[j]));
        }
        lemma_first_index_none(t, q);
    }
}

} // verus!
