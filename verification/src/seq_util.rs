//! Sequence predicates shared by several modules: "the first element that satisfies".

use vstd::prelude::*;

verus! {

/// `i` is the index of the first element of `s` that satisfies `p`.
pub open spec fn is_first_where<T>(s: Seq<T>, p: spec_fn(T) -> bool, i: int) -> bool {
    &&& 0 <= i < s.len()
    &&& p(s[i])
    &&& forall|j: int| 0 <= j < i ==> !p(#[trigger] s[j])
}

/// The first element of `s` that satisfies `p`, if any.
pub open spec fn first_where<T>(s: Seq<T>, p: spec_fn(T) -> bool) -> Option<T> {
    if exists|i: int| is_first_where(s, p, i) {
        Some(s[choose|i: int| is_first_where(s, p, i)])
    } else {
        None
    }
}

/// The first index is unique, so `first_where` names the element found at it.
pub proof fn lemma_first_where_at<T>(s: Seq<T>, p: spec_fn(T) -> bool, i: int)
    requires
        is_first_where(s, p, i),
    ensures
        first_where(s, p) == Some(s[i]),
{
    let k = choose|k: int| is_first_where(s, p, k);
    assert(is_first_where(s, p, k));
    if k < i {
        assert(!p(s[k]));
    } else if i < k {
        assert(!p(s[i]));
    }
}

/// When no element satisfies `p`, there is no first one.
pub proof fn lemma_first_where_none<T>(s: Seq<T>, p: spec_fn(T) -> bool)
    requires
        forall|j: int| 0 <= j < s.len() ==> !p(#[trigger] s[j]),
    ensures
        first_where(s, p) is None,
{
    if exists|i: int| is_first_where(s, p, i) {
        let i = choose|i: int| is_first_where(s, p, i);
        assert(p(s[i]));
    }
}

/// Some element satisfying `p` means a first one exists.
pub proof fn lemma_first_where_exists<T>(s: Seq<T>, p: spec_fn(T) -> bool, i: int)
    requires
        0 <= i < s.len(),
        p(s[i]),
    ensures
        exists|k: int| is_first_where(s, p, k),
        first_where(s, p) is Some,
    decreases i,
{
    if exists|j: int| 0 <= j < i && p(#[trigger] s[j]) {
        let j = choose|j: int| 0 <= j < i && p(#[trigger] s[j]);
        lemma_first_where_exists(s, p, j);
    } else {
        assert(is_first_where(s, p, i));
    }
}

/// The index of the first element of `s` that satisfies `p`, if any.
pub open spec fn first_index_where<T>(s: Seq<T>, p: spec_fn(T) -> bool) -> Option<int> {
    if exists|i: int| is_first_where(s, p, i) {
        Some(choose|i: int| is_first_where(s, p, i))
    } else {
        None
    }
}

/// The first index is unique, so `first_index_where` names it.
pub proof fn lemma_first_index_at<T>(s: Seq<T>, p: spec_fn(T) -> bool, i: int)
    requires
        is_first_where(s, p, i),
    ensures
        first_index_where(s, p) == Some(i),
        first_where(s, p) == Some(s[i]),
{
    lemma_first_where_at(s, p, i);
    let k = choose|k: int| is_first_where(s, p, k);
    assert(is_first_where(s, p, k));
    if k < i {
        assert(!p(s[k]));
    } else if i < k {
        assert(!p(s[i]));
    }
}

/// When no element satisfies `p`, there is no first index.
pub proof fn lemma_first_index_none<T>(s: Seq<T>, p: spec_fn(T) -> bool)
    requires
        forall|j: int| 0 <= j < s.len() ==> !p(#[trigger] s[j]),
    ensures
        first_index_where(s, p) is None,
        first_where(s, p) is None,
{
    lemma_first_where_none(s, p);
}

} // verus!
