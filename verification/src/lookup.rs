//! First positions of a value in a sequence.

use vstd::prelude::*;

verus! {

/// `k` is the first position of `x` in `s`.
pub open spec fn first_at<T>(s: Seq<T>, x: T, k: int) -> bool {
    &&& 0 <= k < s.len()
    &&& s[k] == x
    &&& forall|j: int| 0 <= j < k ==> s[j] != x
}

/// The first position at which `x` occurs in `s`, if it occurs.
pub open spec fn first_index<T>(s: Seq<T>, x: T) -> Option<int> {
    if exists|k: int| 0 <= k < s.len() && s[k] == x {
        Some(choose|k: int| first_at(s, x, k))
    } else {
        None
    }
}

/// No value occurs twice in `s`.
pub open spec fn all_distinct<T>(s: Seq<T>) -> bool {
    forall|i: int, j: int| 0 <= i < j < s.len() ==> s[i] != s[j]
}

/// A value that occurs at `w` has a first position.
proof fn lemma_has_first<T>(s: Seq<T>, x: T, w: int)
    requires
        0 <= w < s.len(),
        s[w] == x,
    ensures
        exists|k: int| first_at(s, x, k),
    decreases w,
{
    if exists|j: int| 0 <= j < w && s[j] == x {
        let j = choose|j: int| 0 <= j < w && s[j] == x;
        lemma_has_first(s, x, j);
    } else {
        assert(first_at(s, x, w));
    }
}

/// If `k` is a first position of `x`, it is the one that [`first_index`]
/// names.
pub proof fn lemma_first_is_index<T>(s: Seq<T>, x: T, k: int)
    requires
        first_at(s, x, k),
    ensures
        first_index(s, x) == Some(k),
{
    let c = choose|c: int| first_at(s, x, c);
    assert(first_at(s, x, c));
    assert(c == k) by {
        if c < k {
            assert(s[c] != x);
        } else if k < c {
            assert(s[k] != x);
        }
    }
}

/// What [`first_index`] names is a first position of the value.
pub proof fn lemma_index_is_first<T>(s: Seq<T>, x: T)
    requires
        first_index(s, x) is Some,
    ensures
        first_at(s, x, first_index(s, x).unwrap()),
{
    let w = choose|k: int| 0 <= k < s.len() && s[k] == x;
    lemma_has_first(s, x, w);
}

/// A value that occurs nowhere has no first position.
pub proof fn lemma_absent_has_no_index<T>(s: Seq<T>, x: T)
    requires
        forall|j: int| 0 <= j < s.len() ==> s[j] != x,
    ensures
        first_index(s, x) is None,
{
}

/// In a sequence without repetition, the position of a value is the
/// position that [`first_index`] names.
pub proof fn lemma_distinct_index<T>(s: Seq<T>, k: int)
    requires
        all_distinct(s),
        0 <= k < s.len(),
    ensures
        first_index(s, s[k]) == Some(k),
{
    assert(first_at(s, s[k], k));
    lemma_first_is_index(s, s[k], k);
}

} // verus!
