//! Lists of keyed records, read as maps.
//!
//! The ledger and the withdrawals in flight are both kept as a vector of
//! records in which no key stands twice.  This module says which map such a
//! list stands for, and how the map follows when the list changes.

use vstd::prelude::*;

verus! {

/// Whether a record stands under `key` in the list.
pub open spec fn listed<K, V>(records: Seq<(K, V)>, key: K) -> bool {
    exists|i: int| 0 <= i < records.len() && records[i].0 == key
}

/// The position of the record under `key` in the list, where there is one.
pub open spec fn position<K, V>(records: Seq<(K, V)>, key: K) -> int {
    choose|i: int| 0 <= i < records.len() && records[i].0 == key
}

/// No key stands twice in the list.
pub open spec fn distinct<K, V>(records: Seq<(K, V)>) -> bool {
    forall|i: int, j: int| 0 <= i < j < records.len() ==> records[i].0 != records[j].0
}

/// The map that the list stands for.
pub open spec fn as_map<K, V>(records: Seq<(K, V)>) -> Map<K, V> {
    Map::new(|key: K| listed(records, key), |key: K| records[position(records, key)].1)
}

/// The empty list stands for the empty map.
pub proof fn lemma_empty<K, V>()
    ensures
        as_map(Seq::<(K, V)>::empty()) == Map::<K, V>::empty(),
{
    assert(as_map(Seq::<(K, V)>::empty()) =~= Map::<K, V>::empty());
}

/// The record at a position of the list shows in the map under its key.
pub proof fn lemma_at<K, V>(records: Seq<(K, V)>, at: int)
    requires
        distinct(records),
        0 <= at < records.len(),
    ensures
        as_map(records).contains_key(records[at].0),
        as_map(records)[records[at].0] == records[at].1,
        position(records, records[at].0) == at,
{
}

/// A record under a new key at the end of the list shows in the map, and
/// the other records stay as they are.
pub proof fn lemma_push<K, V>(records: Seq<(K, V)>, key: K, value: V)
    requires
        distinct(records),
        !listed(records, key),
    ensures
        distinct(records.push((key, value))),
        as_map(records.push((key, value))) == as_map(records).insert(key, value),
{
    let after = records.push((key, value));
    let end = records.len() as int;
    assert(after[end].0 == key);
    assert forall|k: K| listed(after, k) == (listed(records, k) || k == key) by {
        if listed(records, k) {
            assert(after[position(records, k)].0 == k);
        }
        if listed(after, k) && position(after, k) < end {
            assert(records[position(after, k)].0 == k);
        }
    }
    assert forall|k: K| listed(after, k) implies #[trigger] as_map(after)[k] == (if k == key {
        value
    } else {
        as_map(records)[k]
    }) by {
        let at = position(after, k);
        if k != key {
            assert(records[at].0 == k);
            assert(position(records, k) == at);
        } else {
            assert(at == end);
        }
    }
    assert(as_map(after) =~= as_map(records).insert(key, value));
}

/// A new value for the record at a position of the list shows in the map
/// under the record's key, and the other records stay as they are.
pub proof fn lemma_update<K, V>(records: Seq<(K, V)>, at: int, value: V)
    requires
        distinct(records),
        0 <= at < records.len(),
    ensures
        distinct(records.update(at, (records[at].0, value))),
        as_map(records.update(at, (records[at].0, value))) == as_map(records).insert(
            records[at].0,
            value,
        ),
{
    let key = records[at].0;
    let after = records.update(at, (key, value));
    assert forall|k: K| listed(after, k) == listed(records, k) by {
        if listed(records, k) {
            assert(after[position(records, k)].0 == k);
        }
        if listed(after, k) {
            assert(records[position(after, k)].0 == k);
        }
    }
    assert forall|k: K| listed(after, k) implies #[trigger] as_map(after)[k] == (if k == key {
        value
    } else {
        as_map(records)[k]
    }) by {
        let p = position(after, k);
        assert(records[p].0 == k);
        if k != key {
            assert(position(records, k) == p);
        } else {
            assert(p == at);
        }
    }
    assert(as_map(after) =~= as_map(records).insert(key, value));
}

/// Without the record at a position of the list, the map is without the
/// record's key, and the other records stay as they are.
pub proof fn lemma_remove<K, V>(records: Seq<(K, V)>, at: int)
    requires
        distinct(records),
        0 <= at < records.len(),
    ensures
        distinct(records.remove(at)),
        as_map(records.remove(at)) == as_map(records).remove(records[at].0),
{
    let key = records[at].0;
    let after = records.remove(at);
    let back = |p: int|
        if p < at {
            p
        } else {
            p + 1
        };
    assert forall|p: int| 0 <= p < after.len() implies after[p] == records[back(p)] by {}
    assert forall|i: int, j: int| 0 <= i < j < after.len() implies after[i].0 != after[j].0 by {
        assert(after[i] == records[back(i)] && after[j] == records[back(j)]);
    }
    assert forall|k: K| listed(after, k) == (listed(records, k) && k != key) by {
        if listed(records, k) && k != key {
            let p = position(records, k);
            if p < at {
                assert(after[p].0 == k);
            } else {
                assert(after[p - 1].0 == k);
            }
        }
        if listed(after, k) {
            assert(records[back(position(after, k))].0 == k);
        }
    }
    assert forall|k: K| listed(after, k) implies #[trigger] as_map(after)[k] == as_map(
        records,
    )[k] by {
        let p = back(position(after, k));
        assert(records[p].0 == k);
        assert(position(records, k) == p);
    }
    assert(as_map(after) =~= as_map(records).remove(key));
}

/// A list stands for a map with finitely many keys.
pub proof fn lemma_finite<K, V>(records: Seq<(K, V)>)
    ensures
        as_map(records).dom().finite(),
    decreases records.len(),
{
    if records.len() == 0 {
        assert(as_map(records).dom() =~= Set::<K>::empty());
    } else {
        let shorter = records.drop_last();
        let key = records.last().0;
        lemma_finite(shorter);
        assert forall|k: K| #[trigger]
            as_map(records).dom().contains(k) == as_map(shorter).dom().insert(key).contains(
                k,
            ) by {
            if listed(records, k) && position(records, k) < shorter.len() {
                assert(shorter[position(records, k)].0 == k);
            }
            if listed(shorter, k) {
                assert(records[position(shorter, k)].0 == k);
            }
            if k == key {
                assert(records[records.len() - 1].0 == k);
            }
        }
        assert(as_map(records).dom() =~= as_map(shorter).dom().insert(key));
    }
}

} // verus!
