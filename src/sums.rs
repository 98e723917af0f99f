use vstd::prelude::*;

verus! {

/// The sum of `f` over the items of `s`, taken from the front.
pub open spec fn sum_of<A>(s: Seq<A>, f: spec_fn(A) -> int) -> int
    decreases s.len(),
{
    if s.len() == 0 {
        0
    } else {
        sum_of(s.drop_last(), f) + f(s.last())
    }
}

/// Removing the item at `j` takes exactly its term out of the sum.
pub proof fn lemma_sum_remove<A>(s: Seq<A>, f: spec_fn(A) -> int, j: int)
    requires
        0 <= j < s.len(),
    ensures
        sum_of(s, f) == sum_of(s.remove(j), f) + f(s[j]),
    decreases s.len(),
{
    if j == s.len() - 1 {
        assert(s.remove(j) =~= s.drop_last());
    } else {
        let t = s.drop_last();
        lemma_sum_remove(t, f, j);
        assert(s.remove(j).drop_last() =~= t.remove(j));
        assert(s.remove(j).last() == s.last());
    }
}

/// Two sums whose terms agree position by position are equal.
pub proof fn lemma_sum_congruent<A, B>(s: Seq<A>, f: spec_fn(A) -> int, t: Seq<B>, g: spec_fn(B) -> int)
    requires
        s.len() == t.len(),
        forall|i: int| 0 <= i < s.len() ==> f(s[i]) == g(t[i]),
    ensures
        sum_of(s, f) == sum_of(t, g),
    decreases s.len(),
{
    if s.len() > 0 {
        assert(f(s[s.len() - 1]) == g(t[t.len() - 1]));
        lemma_sum_congruent(s.drop_last(), f, t.drop_last(), g);
    }
}

/// A sum does not depend on the order of its terms.
pub proof fn lemma_sum_permutation<A>(s: Seq<A>, t: Seq<A>, f: spec_fn(A) -> int)
    requires
        s.to_multiset() == t.to_multiset(),
    ensures
        sum_of(s, f) == sum_of(t, f),
    decreases s.len(),
{
    broadcast use vstd::seq_lib::group_to_multiset_ensures;

    if s.len() == 0 {
        assert(s.to_multiset().len() == 0);
        assert(t.to_multiset().len() == t.len());
        assert(t =~= Seq::<A>::empty());
    } else {
        let x = s.last();
        assert(s.drop_last().push(x) =~= s);
        assert(s.to_multiset().count(x) > 0) by {
            assert(s.contains(x)) by {
                assert(s[s.len() - 1] == x);
            }
        }
        assert(t.contains(x));
        let j = t.index_of(x);
        assert(t.remove(j).to_multiset() =~= t.to_multiset().remove(x));
        assert(s.drop_last().to_multiset() =~= s.to_multiset().remove(x)) by {
            assert(s.drop_last().push(x).to_multiset() =~= s.drop_last().to_multiset().insert(x));
        }
        lemma_sum_permutation(s.drop_last(), t.remove(j), f);
        lemma_sum_remove(t, f, j);
    }
}

} // verus!
