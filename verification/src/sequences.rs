//! Facts about sequences that the binding proofs share.

use vstd::prelude::*;

verus! {

/// Selecting from a concatenation selects from each part.
pub proof fn lemma_filter_map_concat<A, B>(a: Seq<A>, b: Seq<A>, f: spec_fn(A) -> Option<B>)
    ensures
        (a + b).filter_map(f) == a.filter_map(f) + b.filter_map(f),
    decreases b.len(),
{
    if b.len() == 0 {
        assert(a + b =~= a);
        assert(a.filter_map(f) + b.filter_map(f) =~= a.filter_map(f));
    } else {
        assert((a + b).drop_last() =~= a + b.drop_last());
        assert((a + b).last() == b.last());
        lemma_filter_map_concat(a, b.drop_last(), f);
        match f(b.last()) {
            Some(x) => {
                assert((a.filter_map(f) + b.drop_last().filter_map(f)) + seq![x] =~= a.filter_map(f)
                    + (b.drop_last().filter_map(f) + seq![x]));
            },
            None => {},
        }
    }
}

/// The place of an element in a selection: as many places from the start as
/// there are elements selected before it.
pub open spec fn selected_before<A, B>(s: Seq<A>, f: spec_fn(A) -> Option<B>, k: int) -> int {
    s.take(k).filter_map(f).len() as int
}

/// A longer prefix has no fewer elements selected from it, and one more for
/// each selected element that it adds.
pub proof fn lemma_selected_before_grows<A, B>(
    s: Seq<A>,
    f: spec_fn(A) -> Option<B>,
    k: int,
    later: int,
)
    requires
        0 <= k <= later <= s.len(),
    ensures
        selected_before(s, f, k) <= selected_before(s, f, later),
        k < later && f(s[k]) is Some ==> selected_before(s, f, k) < selected_before(s, f, later),
    decreases later - k,
{
    if k < later {
        s.lemma_filter_map_take_succ(f, k);
        lemma_selected_before_grows(s, f, k + 1, later);
    }
}

/// What is selected from an element stands in the selection, at the place
/// that the elements selected before it leave.
pub proof fn lemma_filter_map_selects<A, B>(s: Seq<A>, f: spec_fn(A) -> Option<B>, k: int)
    requires
        0 <= k < s.len(),
        f(s[k]) is Some,
    ensures
        0 <= selected_before(s, f, k) < s.filter_map(f).len(),
        s.filter_map(f)[selected_before(s, f, k)] == f(s[k])->0,
{
    s.lemma_filter_map_take_succ(f, k);
    lemma_selected_before_grows(s, f, k + 1, s.len() as int);
    assert(s.take(s.len() as int) =~= s);
    let tail = s.skip(k + 1);
    assert(s.take(k + 1) + tail =~= s);
    lemma_filter_map_concat(s.take(k + 1), tail, f);
}

/// Every element of a selection was selected from the element that has just
/// so many selected before it.
pub proof fn lemma_filter_map_origin<A, B>(s: Seq<A>, f: spec_fn(A) -> Option<B>, at: int) -> (k:
    int)
    requires
        0 <= at < s.filter_map(f).len(),
    ensures
        0 <= k < s.len(),
        f(s[k]) == Some(s.filter_map(f)[at]),
        selected_before(s, f, k) == at,
    decreases s.len(),
{
    let rest = s.drop_last();
    let earlier = rest.filter_map(f);
    if s.len() == 0 {
        0
    } else if at < earlier.len() {
        match f(s.last()) {
            Some(x) => {
                assert((earlier + seq![x])[at] == earlier[at]);
            },
            None => {},
        }
        let k = lemma_filter_map_origin(rest, f, at);
        assert(s.take(k) =~= rest.take(k));
        k
    } else {
        assert(s.take(s.len() - 1) =~= rest);
        s.len() - 1
    }
}

/// Every element of every mapped part is an element of the flattened whole.
pub proof fn lemma_flat_map_member<A, B>(s: Seq<A>, f: spec_fn(A) -> Seq<B>, i: int, j: int) -> (k:
    int)
    requires
        0 <= i < s.len(),
        0 <= j < f(s[i]).len(),
    ensures
        0 <= k < s.flat_map(f).len(),
        s.flat_map(f)[k] == f(s[i])[j],
    decreases s.len(),
{
    let rest = s.drop_last();
    assert(rest.push(s.last()) =~= s);
    rest.lemma_flat_map_push(f, s.last());
    if i == s.len() - 1 {
        rest.flat_map(f).len() + j
    } else {
        lemma_flat_map_member(rest, f, i, j)
    }
}

} // verus!
