//! Sums over finite maps, and how they change when a map does.

use vstd::prelude::*;

verus! {

/// The sum of `weight` over the values of a finite map.
pub open spec fn total<K, V>(m: Map<K, V>, weight: spec_fn(V) -> nat) -> nat
    decreases m.dom().len(),
    when m.dom().finite()
{
    if m.dom().is_empty() {
        0
    } else {
        let k = m.dom().choose();
        weight(m[k]) + total(m.remove(k), weight)
    }
}

/// The sum over an empty map is zero.
pub proof fn lemma_total_empty<K, V>(weight: spec_fn(V) -> nat)
    ensures
        total(Map::<K, V>::empty(), weight) == 0,
{
}

/// Any entry can be split off the sum: it does not matter in which order the
/// entries are added up.
pub proof fn lemma_total_remove<K, V>(m: Map<K, V>, weight: spec_fn(V) -> nat, key: K)
    requires
        m.dom().finite(),
        m.contains_key(key),
    ensures
        total(m, weight) == weight(m[key]) + total(m.remove(key), weight),
    decreases m.dom().len(),
{
    let first = m.dom().choose();
    if first != key {
        let rest = m.remove(first);
        lemma_total_remove(rest, weight, key);
        let other = m.remove(key);
        lemma_total_remove(other, weight, first);
        assert(rest.remove(key) =~= other.remove(first));
    }
}

/// Writing a value under a key adds its weight, and takes away the weight of
/// the value that stood there before.
pub proof fn lemma_total_insert<K, V>(m: Map<K, V>, weight: spec_fn(V) -> nat, key: K, value: V)
    requires
        m.dom().finite(),
    ensures
        m.insert(key, value).dom().finite(),
        total(m.insert(key, value), weight) + (if m.contains_key(key) {
            weight(m[key])
        } else {
            0
        }) == total(m, weight) + weight(value),
{
    let after = m.insert(key, value);
    lemma_total_remove(after, weight, key);
    if m.contains_key(key) {
        lemma_total_remove(m, weight, key);
        assert(after.remove(key) =~= m.remove(key));
    } else {
        assert(after.remove(key) =~= m);
    }
}

} // verus!
