use vstd::prelude::*;
use vstd::set::fold::{is_fun_commutative, lemma_fold_empty, lemma_fold_insert};

verus! {

/// The step that adds the count recorded for one key.
pub open spec fn add_count(m: Map<u64, u64>) -> spec_fn(int, u64) -> int {
    |acc: int, k: u64| acc + m[k] as int
}

/// The sum of the counts of `m` over the keys in `keys`.
pub open spec fn sum_on(keys: Set<u64>, m: Map<u64, u64>) -> int {
    keys.fold(0int, add_count(m))
}

/// The sum of all counts recorded in `m`.
pub open spec fn sum_counts(m: Map<u64, u64>) -> int {
    sum_on(m.dom(), m)
}

proof fn lemma_add_count_commutative(m: Map<u64, u64>)
    ensures
        is_fun_commutative(add_count(m)),
{
    assert forall|a1: u64, a2: u64, b: int|
        #[trigger] add_count(m)(add_count(m)(b, a1), a2) == add_count(m)(add_count(m)(b, a2), a1) by {}
}

/// Two maps that agree on `keys` have the same sum over `keys`.
pub proof fn lemma_sum_on_agree(keys: Set<u64>, m1: Map<u64, u64>, m2: Map<u64, u64>)
    requires
        keys.finite(),
        forall|k: u64| keys.contains(k) ==> m1[k] == m2[k],
    ensures
        sum_on(keys, m1) == sum_on(keys, m2),
    decreases keys.len(),
{
    lemma_add_count_commutative(m1);
    lemma_add_count_commutative(m2);
    if keys.len() == 0 {
        assert(keys =~= Set::empty());
        lemma_fold_empty(0int, add_count(m1));
        lemma_fold_empty(0int, add_count(m2));
    } else {
        let k = keys.choose();
        let rest = keys.remove(k);
        assert(rest.insert(k) =~= keys);
        lemma_sum_on_agree(rest, m1, m2);
        lemma_fold_insert(rest, 0int, add_count(m1), k);
        lemma_fold_insert(rest, 0int, add_count(m2), k);
    }
}

/// Setting the count of one key changes the sum by the difference.
pub proof fn lemma_sum_counts_insert(m: Map<u64, u64>, k: u64, v: u64)
    requires
        m.dom().finite(),
    ensures
        sum_counts(m.insert(k, v)) == sum_counts(m) - (if m.contains_key(k) {
            m[k] as int
        } else {
            0
        }) + v as int,
{
    let m2 = m.insert(k, v);
    let rest = m.dom().remove(k);
    lemma_add_count_commutative(m);
    lemma_add_count_commutative(m2);
    assert(m2.dom() =~= rest.insert(k));
    lemma_sum_on_agree(rest, m, m2);
    lemma_fold_insert(rest, 0int, add_count(m2), k);
    if m.contains_key(k) {
        assert(m.dom() =~= rest.insert(k));
        lemma_fold_insert(rest, 0int, add_count(m), k);
    } else {
        assert(m.dom() =~= rest);
    }
}

/// The sum of an empty map is zero.
pub proof fn lemma_sum_counts_empty()
    ensures
        sum_counts(Map::<u64, u64>::empty()) == 0,
{
    assert(Map::<u64, u64>::empty().dom() =~= Set::empty());
    lemma_fold_empty(0int, add_count(Map::<u64, u64>::empty()));
}

} // verus!
