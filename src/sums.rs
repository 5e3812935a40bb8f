//! Sums of the values of a finite map, with the facts that the ledger's
//! invariants need about them.

use vstd::prelude::*;
use vstd::set::fold::{is_fun_commutative, lemma_fold_empty, lemma_fold_insert};

verus! {

/// The key-value pairs of a map.
pub open spec fn pairs_of<K>(m: Map<K, int>) -> Set<(K, int)> {
    m.dom().map(|k: K| (k, m[k]))
}

/// Adds the value of one pair to an accumulator.
pub open spec fn add_value<K>() -> spec_fn(int, (K, int)) -> int {
    |acc: int, p: (K, int)| acc + p.1
}

/// The sum of the values of a finite map.
pub open spec fn sum_of<K>(m: Map<K, int>) -> int {
    pairs_of(m).fold(0, add_value::<K>())
}

proof fn lemma_add_value_commutative<K>()
    ensures
        is_fun_commutative(add_value::<K>()),
{
}

proof fn lemma_pairs_finite<K>(m: Map<K, int>)
    requires
        m.dom().finite(),
    ensures
        pairs_of(m).finite(),
{
    m.dom().lemma_map_finite(|k: K| (k, m[k]));
}

/// The empty map sums to zero.
pub proof fn lemma_sum_empty<K>()
    ensures
        sum_of(Map::<K, int>::empty()) == 0,
{
    assert(pairs_of(Map::<K, int>::empty()) =~= Set::empty());
    lemma_fold_empty::<(K, int), int>(0, add_value::<K>());
}

proof fn lemma_sum_insert_absent<K>(m: Map<K, int>, k: K, v: int)
    requires
        m.dom().finite(),
        !m.dom().contains(k),
    ensures
        sum_of(m.insert(k, v)) == sum_of(m) + v,
{
    lemma_pairs_finite(m);
    lemma_add_value_commutative::<K>();
    let s = pairs_of(m);
    assert(!s.contains((k, v)));
    assert(pairs_of(m.insert(k, v)) =~= s.insert((k, v))) by {
        assert forall|p: (K, int)| #[trigger] s.insert((k, v)).contains(p) implies pairs_of(
            m.insert(k, v),
        ).contains(p) by {
            if p != (k, v) {
                let kk = choose|kk: K| m.dom().contains(kk) && (kk, m[kk]) == p;
                assert(m.insert(k, v).dom().contains(kk) && (kk, m.insert(k, v)[kk]) == p);
            } else {
                assert(m.insert(k, v).dom().contains(k));
            }
        }
        assert forall|p: (K, int)| #[trigger] pairs_of(m.insert(k, v)).contains(p) implies s.insert(
            (k, v),
        ).contains(p) by {
            let kk = choose|kk: K| m.insert(k, v).dom().contains(kk) && (kk, m.insert(k, v)[kk]) == p;
            if kk != k {
                assert(m.dom().contains(kk) && (kk, m[kk]) == p);
            }
        }
    }
    lemma_fold_insert(s, 0, add_value::<K>(), (k, v));
}

/// Setting the value of a key changes the sum by the difference it makes.
pub proof fn lemma_sum_insert<K>(m: Map<K, int>, k: K, v: int)
    requires
        m.dom().finite(),
    ensures
        sum_of(m.insert(k, v)) == sum_of(m) - (if m.dom().contains(k) {
            m[k]
        } else {
            0
        }) + v,
{
    if m.dom().contains(k) {
        let r = m.remove(k);
        assert(r.dom().finite()) by {
            assert(r.dom() =~= m.dom().remove(k));
        }
        lemma_sum_insert_absent(r, k, m[k]);
        lemma_sum_insert_absent(r, k, v);
        assert(r.insert(k, m[k]) =~= m);
        assert(r.insert(k, v) =~= m.insert(k, v));
    } else {
        lemma_sum_insert_absent(m, k, v);
    }
}

} // verus!
