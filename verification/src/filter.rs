//! Facts about filtering sequences, shared by the vote bookkeeping and the
//! loops that filter a vector element by element.

use vstd::prelude::*;

verus! {

broadcast use vstd::seq_lib::group_filter_ensures;

/// No two distinct positions of `s` hold elements related by `rel`.
pub open spec fn pairwise_unrelated<A>(s: Seq<A>, rel: spec_fn(A, A) -> bool) -> bool {
    forall|i: int, j: int|
        0 <= i < s.len() && 0 <= j < s.len() && i != j ==> !rel(#[trigger] s[i], #[trigger] s[j])
}

/// Filtering a prefix one element further: the first `j + 1` elements of
/// `s`, filtered, are the first `j` filtered, followed by `s[j]` when it
/// passes.
pub proof fn lemma_filter_take_step<A>(s: Seq<A>, pred: spec_fn(A) -> bool, j: int)
    requires
        0 <= j < s.len(),
    ensures
        s.take(j + 1).filter(pred) == if pred(s[j]) {
            s.take(j).filter(pred).push(s[j])
        } else {
            s.take(j).filter(pred)
        },
{
    reveal(Seq::filter);
    assert(s.take(j + 1).drop_last() =~= s.take(j));
}

/// Filtering a sequence with one more element at its end.
pub proof fn lemma_filter_push<A>(s: Seq<A>, pred: spec_fn(A) -> bool, x: A)
    ensures
        s.push(x).filter(pred) == if pred(x) {
            s.filter(pred).push(x)
        } else {
            s.filter(pred)
        },
{
    reveal(Seq::filter);
    assert(s.push(x).drop_last() =~= s);
}

/// Filtering twice is filtering once by both predicates.
pub proof fn lemma_filter_filter<A>(s: Seq<A>, first: spec_fn(A) -> bool, second: spec_fn(A) -> bool)
    ensures
        s.filter(first).filter(second) == s.filter(|x: A| first(x) && second(x)),
    decreases s.len(),
{
    reveal(Seq::filter);
    if s.len() > 0 {
        let rest = s.drop_last();
        lemma_filter_filter(rest, first, second);
        let inner = rest.filter(first);
        if first(s.last()) {
            assert(inner.push(s.last()).drop_last() =~= inner);
        }
    }
}

/// Filtering by a predicate that no element of `s` meets leaves nothing.
pub proof fn lemma_filter_none<A>(s: Seq<A>, pred: spec_fn(A) -> bool)
    requires
        forall|i: int| 0 <= i < s.len() ==> !pred(#[trigger] s[i]),
    ensures
        s.filter(pred) == Seq::<A>::empty(),
{
    let f = s.filter(pred);
    if f.len() > 0 {
        assert(pred(f[0]));
        assert(f.contains(f[0]));
        s.lemma_filter_contains_rev(pred, f[0]);
    }
    assert(f =~= Seq::<A>::empty());
}

/// Filtering keeps any two remaining elements unrelated.
pub proof fn lemma_filter_keeps_pairwise_unrelated<A>(
    s: Seq<A>,
    rel: spec_fn(A, A) -> bool,
    pred: spec_fn(A) -> bool,
)
    requires
        pairwise_unrelated(s, rel),
    ensures
        pairwise_unrelated(s.filter(pred), rel),
    decreases s.len(),
{
    reveal(Seq::filter);
    if s.len() > 0 {
        let rest = s.drop_last();
        assert(pairwise_unrelated(rest, rel)) by {
            assert forall|i: int, j: int|
                0 <= i < rest.len() && 0 <= j < rest.len() && i != j implies !rel(
                #[trigger] rest[i],
                #[trigger] rest[j],
            ) by {
                assert(rest[i] == s[i] && rest[j] == s[j]);
            }
        }
        lemma_filter_keeps_pairwise_unrelated(rest, rel, pred);
        if pred(s.last()) {
            let f = rest.filter(pred);
            let out = f.push(s.last());
            let last = s.len() - 1;
            assert forall|i: int, j: int|
                0 <= i < out.len() && 0 <= j < out.len() && i != j implies !rel(
                #[trigger] out[i],
                #[trigger] out[j],
            ) by {
                if i < f.len() && j < f.len() {
                    assert(out[i] == f[i] && out[j] == f[j]);
                } else if i < f.len() {
                    assert(f.contains(out[i]));
                    rest.lemma_filter_contains_rev(pred, out[i]);
                    let k = choose|k: int| 0 <= k < rest.len() && rest[k] == out[i];
                    assert(s[k] == out[i] && s[last] == out[j]);
                } else if j < f.len() {
                    assert(f.contains(out[j]));
                    rest.lemma_filter_contains_rev(pred, out[j]);
                    let k = choose|k: int| 0 <= k < rest.len() && rest[k] == out[j];
                    assert(s[k] == out[j] && s[last] == out[i]);
                }
            }
        }
    }
}

/// Filtering keeps a sequence free of duplicates.
pub proof fn lemma_filter_keeps_no_duplicates<A>(s: Seq<A>, pred: spec_fn(A) -> bool)
    requires
        s.no_duplicates(),
    ensures
        s.filter(pred).no_duplicates(),
{
    let equal = |a: A, b: A| a == b;
    lemma_filter_keeps_pairwise_unrelated(s, equal, pred);
    let f = s.filter(pred);
    assert forall|i: int, j: int| 0 <= i < f.len() && 0 <= j < f.len() && i != j implies f[i]
        != f[j] by {
        assert(!equal(f[i], f[j]));
    }
}

/// Filtering by a predicate that implies another keeps the same elements
/// whether or not the other filter runs first.
pub proof fn lemma_filter_of_filter<A>(s: Seq<A>, first: spec_fn(A) -> bool, second: spec_fn(A) -> bool)
    requires
        forall|x: A| #[trigger] second(x) ==> first(x),
    ensures
        s.filter(first).filter(second) == s.filter(second),
    decreases s.len(),
{
    reveal(Seq::filter);
    if s.len() > 0 {
        let rest = s.drop_last();
        lemma_filter_of_filter(rest, first, second);
        let inner = rest.filter(first);
        if first(s.last()) {
            assert(inner.push(s.last()).drop_last() =~= inner);
        }
    }
}

} // verus!
