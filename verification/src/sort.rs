//! Stable insertion sorting, as a specification over sequences.
use vstd::prelude::*;

verus! {

/// `s` with `x` placed before its first element that `x` is below.
pub open spec fn insert_sorted<A>(x: A, s: Seq<A>, lt: spec_fn(A, A) -> bool) -> Seq<A>
    decreases s.len(),
{
    if s.len() == 0 {
        seq![x]
    } else if lt(x, s[0]) {
        seq![x] + s
    } else {
        seq![s[0]] + insert_sorted(x, s.drop_first(), lt)
    }
}

/// `s` sorted by `lt`, equal elements in their order in `s`.
pub open spec fn sort_by<A>(s: Seq<A>, lt: spec_fn(A, A) -> bool) -> Seq<A>
    decreases s.len(),
{
    if s.len() == 0 {
        Seq::empty()
    } else {
        insert_sorted(s.last(), sort_by(s.drop_last(), lt), lt)
    }
}

/// No element of `s` is below the one before it.
pub open spec fn is_sorted_by<A>(s: Seq<A>, lt: spec_fn(A, A) -> bool) -> bool {
    forall|i: int| 0 < i < s.len() ==> !lt(#[trigger] s[i], s[i - 1])
}

/// `lt` never holds both ways.
pub open spec fn is_asymmetric<A>(lt: spec_fn(A, A) -> bool) -> bool {
    forall|a: A, b: A| #[trigger] lt(a, b) ==> !lt(b, a)
}

/// Where insertion puts `x`: before the first element that `x` is below.
pub proof fn lemma_insert_sorted_at<A>(x: A, s: Seq<A>, lt: spec_fn(A, A) -> bool, p: int)
    requires
        0 <= p <= s.len(),
        forall|j: int| 0 <= j < p ==> !lt(x, #[trigger] s[j]),
        p < s.len() ==> lt(x, s[p]),
    ensures
        insert_sorted(x, s, lt) == s.insert(p, x),
    decreases p,
{
    if p == 0 {
        if s.len() == 0 {
            assert(s.insert(0, x) =~= seq![x]);
        } else {
            assert(s.insert(0, x) =~= seq![x] + s);
        }
    } else {
        assert(!lt(x, s[0]));
        assert forall|j: int| 0 <= j < p - 1 implies !lt(x, #[trigger] s.drop_first()[j]) by {
            assert(s.drop_first()[j] == s[j + 1]);
        }
        lemma_insert_sorted_at(x, s.drop_first(), lt, p - 1);
        assert(s.insert(p, x) =~= seq![s[0]] + s.drop_first().insert(p - 1, x));
    }
}

/// One more element sorted in: the sort of a prefix one longer.
pub proof fn lemma_sort_by_step<A>(s: Seq<A>, lt: spec_fn(A, A) -> bool, i: int)
    requires
        0 <= i < s.len(),
    ensures
        sort_by(s.take(i + 1), lt) == insert_sorted(s[i], sort_by(s.take(i), lt), lt),
{
    assert(s.take(i + 1).drop_last() =~= s.take(i));
}

proof fn lemma_insert_sorted_keeps<A>(x: A, s: Seq<A>, lt: spec_fn(A, A) -> bool)
    requires
        is_asymmetric(lt),
        is_sorted_by(s, lt),
    ensures
        is_sorted_by(insert_sorted(x, s, lt), lt),
        insert_sorted(x, s, lt).to_multiset() == s.to_multiset().insert(x),
    decreases s.len(),
{
    broadcast use vstd::seq_lib::group_to_multiset_ensures;

    let r = insert_sorted(x, s, lt);
    if s.len() == 0 {
        assert(r =~= seq![x]);
        assert(seq![x] =~= Seq::<A>::empty().push(x));
    } else if lt(x, s[0]) {
        assert forall|i: int| 0 < i < r.len() implies !lt(#[trigger] r[i], r[i - 1]) by {
            if i == 1 {
                assert(r[1] == s[0]);
                assert(r[0] == x);
            } else {
                assert(r[i] == s[i - 1]);
                assert(r[i - 1] == s[i - 2]);
            }
        }
        assert(r =~= s.insert(0, x));
    } else {
        let t = s.drop_first();
        assert forall|i: int| 0 < i < t.len() implies !lt(#[trigger] t[i], t[i - 1]) by {
            assert(t[i] == s[i + 1]);
            assert(t[i - 1] == s[i]);
        }
        lemma_insert_sorted_keeps(x, t, lt);
        let u = insert_sorted(x, t, lt);
        assert(r =~= seq![s[0]] + u);
        assert forall|i: int| 0 < i < r.len() implies !lt(#[trigger] r[i], r[i - 1]) by {
            if i == 1 {
                assert(r[0] == s[0]);
                assert(r[1] == u[0]);
                if t.len() == 0 {
                    assert(u[0] == x);
                } else if lt(x, t[0]) {
                    assert(u[0] == x);
                } else {
                    assert(u[0] == t[0]);
                    assert(t[0] == s[1]);
                }
            } else {
                assert(r[i] == u[i - 1]);
                assert(r[i - 1] == u[i - 2]);
            }
        }
        assert(s =~= seq![s[0]] + t);
        vstd::seq_lib::lemma_multiset_commutative(seq![s[0]], t);
        vstd::seq_lib::lemma_multiset_commutative(seq![s[0]], u);
        assert(seq![s[0]] =~= Seq::<A>::empty().push(s[0]));
        assert(Seq::<A>::empty().to_multiset() =~= vstd::multiset::Multiset::empty());
        assert(seq![s[0]].to_multiset() =~= vstd::multiset::Multiset::empty().insert(s[0]));
        assert(r.to_multiset() =~= s.to_multiset().insert(x));
    }
}

/// Sorting yields a sorted permutation of its input when the order is
/// asymmetric.
pub proof fn lemma_sort_by_sorted<A>(s: Seq<A>, lt: spec_fn(A, A) -> bool)
    requires
        is_asymmetric(lt),
    ensures
        is_sorted_by(sort_by(s, lt), lt),
        sort_by(s, lt).to_multiset() == s.to_multiset(),
    decreases s.len(),
{
    broadcast use vstd::seq_lib::group_to_multiset_ensures;

    if s.len() == 0 {
        assert(sort_by(s, lt) =~= Seq::<A>::empty());
    } else {
        lemma_sort_by_sorted(s.drop_last(), lt);
        lemma_insert_sorted_keeps(s.last(), sort_by(s.drop_last(), lt), lt);
        assert(s =~= s.drop_last().push(s.last()));
    }
}

/// `lt` is a strict total order: irreflexive, transitive, and any two
/// distinct elements are related one way or the other.
pub open spec fn is_strict_total<A>(lt: spec_fn(A, A) -> bool) -> bool {
    &&& forall|a: A| !#[trigger] lt(a, a)
    &&& forall|a: A, b: A, c: A| #[trigger] lt(a, b) && #[trigger] lt(b, c) ==> lt(a, c)
    &&& forall|a: A, b: A| a != b ==> #[trigger] lt(a, b) || #[trigger] lt(b, a)
}

proof fn lemma_sorted_pair<A>(t: Seq<A>, lt: spec_fn(A, A) -> bool, i: int, j: int)
    requires
        is_strict_total(lt),
        is_sorted_by(t, lt),
        0 <= i < j < t.len(),
    ensures
        !lt(t[j], t[i]),
    decreases j - i,
{
    assert(!lt(t[j], t[j - 1]));
    if j > i + 1 {
        lemma_sorted_pair(t, lt, i, j - 1);
        if lt(t[j], t[i]) {
            if t[i] != t[j - 1] {
                if lt(t[i], t[j - 1]) {
                    assert(lt(t[j], t[j - 1]));
                } else {
                    assert(lt(t[j - 1], t[i]));
                }
            }
        }
    }
}

proof fn lemma_sorted_last_is_greatest<A>(t: Seq<A>, lt: spec_fn(A, A) -> bool, k: int)
    requires
        is_strict_total(lt),
        is_sorted_by(t, lt),
        0 <= k < t.len(),
    ensures
        !lt(t.last(), t[k]),
{
    if k < t.len() - 1 {
        lemma_sorted_pair(t, lt, k, t.len() - 1);
    }
}

/// Under a strict total order, two sorted sequences with the same elements
/// are equal.
pub proof fn lemma_sorted_unique<A>(t1: Seq<A>, t2: Seq<A>, lt: spec_fn(A, A) -> bool)
    requires
        is_strict_total(lt),
        is_sorted_by(t1, lt),
        is_sorted_by(t2, lt),
        t1.to_multiset() == t2.to_multiset(),
    ensures
        t1 == t2,
    decreases t1.len(),
{
    broadcast use vstd::seq_lib::group_to_multiset_ensures;

    assert(t1.len() == t1.to_multiset().len());
    assert(t2.len() == t2.to_multiset().len());
    if t1.len() == 0 {
        assert(t1 =~= t2);
    } else {
        let x = t1.last();
        let y = t2.last();
        assert(t1.contains(x)) by {
            assert(t1[t1.len() - 1] == x);
        }
        assert(t1.to_multiset().count(x) > 0);
        assert(t2.to_multiset().count(x) > 0);
        assert(t2.contains(x));
        assert(t2.contains(y)) by {
            assert(t2[t2.len() - 1] == y);
        }
        assert(t2.to_multiset().count(y) > 0);
        assert(t1.to_multiset().count(y) > 0);
        let k2 = choose|k: int| 0 <= k < t2.len() && t2[k] == x;
        lemma_sorted_last_is_greatest(t2, lt, k2);
        assert(t1.contains(y));
        let k1 = choose|k: int| 0 <= k < t1.len() && t1[k] == y;
        lemma_sorted_last_is_greatest(t1, lt, k1);
        assert(x == y);
        let u1 = t1.drop_last();
        let u2 = t2.drop_last();
        assert(t1 =~= u1.push(x));
        assert(t2 =~= u2.push(x));
        assert(u1.to_multiset() =~= u2.to_multiset()) by {
            assert forall|z: A| u1.to_multiset().count(z) == u2.to_multiset().count(z) by {
                assert(u1.push(x).to_multiset().count(z) == u2.push(x).to_multiset().count(z));
            }
        }
        assert forall|i: int| 0 < i < u1.len() implies !lt(#[trigger] u1[i], u1[i - 1]) by {
            assert(u1[i] == t1[i] && u1[i - 1] == t1[i - 1]);
        }
        assert forall|i: int| 0 < i < u2.len() implies !lt(#[trigger] u2[i], u2[i - 1]) by {
            assert(u2[i] == t2[i] && u2[i - 1] == t2[i - 1]);
        }
        lemma_sorted_unique(u1, u2, lt);
    }
}

/// Under a strict total order, sorting does not depend on the order of its
/// input: two sequences with the same elements sort alike.
pub proof fn lemma_sort_by_permutation<A>(s1: Seq<A>, s2: Seq<A>, lt: spec_fn(A, A) -> bool)
    requires
        is_strict_total(lt),
        s1.to_multiset() == s2.to_multiset(),
    ensures
        sort_by(s1, lt) == sort_by(s2, lt),
{
    assert(is_asymmetric(lt)) by {
        assert forall|a: A, b: A| #[trigger] lt(a, b) implies !lt(b, a) by {
            if lt(b, a) {
                assert(lt(a, a));
            }
        }
    }
    lemma_sort_by_sorted(s1, lt);
    lemma_sort_by_sorted(s2, lt);
    lemma_sorted_unique(sort_by(s1, lt), sort_by(s2, lt), lt);
}

} // verus!
