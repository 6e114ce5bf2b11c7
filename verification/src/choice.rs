//! Choosing among candidates only where there is exactly one.

use vstd::prelude::*;

verus! {

/// Position `i` holds the only candidate.
pub open spec fn is_only_some<T>(s: Seq<Option<T>>, i: int) -> bool {
    &&& 0 <= i < s.len()
    &&& s[i] is Some
    &&& forall|j: int| 0 <= j < s.len() && #[trigger] s[j] is Some ==> j == i
}

/// The candidate, where there is exactly one.
pub open spec fn only_some<T>(s: Seq<Option<T>>) -> Option<T> {
    if exists|i: int| is_only_some(s, i) {
        s[choose|i: int| is_only_some(s, i)]
    } else {
        None
    }
}

/// The only candidate is the one at the position that holds it.
pub proof fn lemma_only_some<T>(s: Seq<Option<T>>, i: int)
    requires
        is_only_some(s, i),
    ensures
        only_some(s) == s[i],
{
    let k = choose|k: int| is_only_some(s, k);
    assert(is_only_some(s, k));
}

/// How many candidates there are.
spec fn count_some<T>(s: Seq<Option<T>>) -> nat
    decreases s.len(),
{
    if s.len() == 0 {
        0
    } else {
        count_some(s.drop_last()) + if s.last() is Some {
            1nat
        } else {
            0
        }
    }
}

proof fn lemma_none<T>(s: Seq<Option<T>>)
    ensures
        count_some(s) == 0 <==> forall|j: int| 0 <= j < s.len() ==> #[trigger] s[j] is None,
    decreases s.len(),
{
    if s.len() > 0 {
        lemma_none(s.drop_last());
        if count_some(s) == 0 {
            assert forall|j: int| 0 <= j < s.len() implies #[trigger] s[j] is None by {
                if j < s.len() - 1 {
                    assert(s.drop_last()[j] is None);
                }
            }
        }
        if forall|j: int| 0 <= j < s.len() ==> #[trigger] s[j] is None {
            assert forall|j: int| 0 <= j < s.drop_last().len() implies #[trigger] s.drop_last()[j]
                is None by {
                assert(s[j] is None);
            }
            assert(s[s.len() - 1] is None);
        }
    }
}

proof fn lemma_count_one<T>(s: Seq<Option<T>>)
    ensures
        count_some(s) == 1 <==> exists|i: int| is_only_some(s, i),
    decreases s.len(),
{
    if s.len() > 0 {
        let front = s.drop_last();
        lemma_none(front);
        lemma_count_one(front);
        if count_some(s) == 1 {
            if s.last() is Some {
                assert forall|j: int| 0 <= j < s.len() && #[trigger] s[j] is Some implies j == s.len()
                    - 1 by {
                    if j < s.len() - 1 {
                        assert(front[j] is None);
                    }
                }
                assert(is_only_some(s, s.len() - 1));
            } else {
                let i = choose|i: int| is_only_some(front, i);
                assert forall|j: int| 0 <= j < s.len() && #[trigger] s[j] is Some implies j == i by {
                    assert(j < s.len() - 1);
                    assert(front[j] is Some);
                }
                assert(is_only_some(s, i));
            }
        }
        if exists|i: int| is_only_some(s, i) {
            let i = choose|i: int| is_only_some(s, i);
            if i == s.len() - 1 {
                assert forall|j: int| 0 <= j < front.len() implies #[trigger] front[j] is None by {
                    assert(s[j] == front[j]);
                }
            } else {
                assert(s[s.len() - 1] is None);
                assert forall|j: int| 0 <= j < front.len() && #[trigger] front[j] is Some implies j
                    == i by {
                    assert(s[j] is Some);
                }
                assert(front[i] is Some);
                assert(is_only_some(front, i));
            }
        }
    }
}

proof fn lemma_count_without<T>(s: Seq<Option<T>>, k: int)
    requires
        0 <= k < s.len(),
    ensures
        count_some(s) == count_some(s.remove(k)) + if s[k] is Some {
            1nat
        } else {
            0
        },
    decreases s.len(),
{
    if k == s.len() - 1 {
        assert(s.remove(k) =~= s.drop_last());
    } else {
        lemma_count_without(s.drop_last(), k);
        assert(s.remove(k).drop_last() =~= s.drop_last().remove(k));
        assert(s.remove(k).last() == s.last());
    }
}

proof fn lemma_count_by_multiset<T>(a: Seq<Option<T>>, b: Seq<Option<T>>)
    requires
        a.to_multiset() == b.to_multiset(),
    ensures
        count_some(a) == count_some(b),
    decreases a.len(),
{
    broadcast use {
        vstd::seq_lib::to_multiset_len,
        vstd::seq_lib::to_multiset_remove,
        vstd::seq_lib::to_multiset_contains,
    };

    vstd::seq_lib::to_multiset_len(a);
    vstd::seq_lib::to_multiset_len(b);
    assert(a.len() == b.len());
    if a.len() > 0 {
        let x = a.last();
        assert(a.contains(x));
        assert(b.to_multiset().count(x) > 0);
        assert(b.contains(x));
        let k = choose|k: int| 0 <= k < b.len() && b[k] == x;
        assert(a.drop_last() =~= a.remove(a.len() - 1));
        assert(a.drop_last().to_multiset() =~= b.remove(k).to_multiset());
        lemma_count_by_multiset(a.drop_last(), b.remove(k));
        lemma_count_without(b, k);
    }
}

/// The order in which candidates are looked at never decides which is chosen.
pub proof fn law_order_never_decides<T>(a: Seq<Option<T>>, b: Seq<Option<T>>)
    requires
        a.to_multiset() == b.to_multiset(),
    ensures
        only_some(a) == only_some(b),
{
    broadcast use {
        vstd::seq_lib::to_multiset_len,
        vstd::seq_lib::to_multiset_remove,
        vstd::seq_lib::to_multiset_contains,
    };

    lemma_count_by_multiset(a, b);
    lemma_count_one(a);
    lemma_count_one(b);
    if count_some(a) == 1 {
        let i = choose|i: int| is_only_some(a, i);
        let k = choose|k: int| is_only_some(b, k);
        assert(a.contains(a[i]));
        assert(b.to_multiset().count(a[i]) > 0);
        assert(b.contains(a[i]));
        let at = choose|at: int| 0 <= at < b.len() && b[at] == a[i];
        assert(b[at] is Some);
    }
}

/// One candidate among nothing else is the one that is chosen, wherever it
/// stands; among none, nothing is, and beside another candidate neither is.
pub proof fn law_one_candidate_is_chosen<T>(
    before: Seq<Option<T>>,
    one: T,
    between: Seq<Option<T>>,
    other: T,
    after: Seq<Option<T>>,
)
    ensures
        (forall|j: int| 0 <= j < before.len() ==> #[trigger] before[j] is None) ==> only_some(
            before,
        ) is None,
        (forall|j: int| 0 <= j < before.len() ==> #[trigger] before[j] is None) && (forall|j: int|
            0 <= j < after.len() ==> #[trigger] after[j] is None) ==> only_some(
            before + seq![Some(one)] + after,
        ) == Some(one),
        only_some(before + seq![Some(one)] + between + seq![Some(other)] + after) is None,
{
    let s = before + seq![Some(one)] + after;
    let at = before.len() as int;
    if (forall|j: int| 0 <= j < before.len() ==> #[trigger] before[j] is None) && (forall|j: int|
        0 <= j < after.len() ==> #[trigger] after[j] is None) {
        assert forall|j: int| 0 <= j < s.len() && #[trigger] s[j] is Some implies j == at by {
            if j < at {
                assert(s[j] == before[j]);
            } else if j > at {
                assert(s[j] == after[j - at - 1]);
            }
        }
        assert(is_only_some(s, at));
        lemma_only_some(s, at);
    }
    let two = before + seq![Some(one)] + between + seq![Some(other)] + after;
    assert(two[at] is Some);
    assert(two[at + 1 + between.len()] is Some);
}

} // verus!
