//! Sequences of entities that are found by a numeric ID.

use vstd::prelude::*;

verus! {

/// Whether one of the IDs is `key`.
pub open spec fn has_key(keys: Seq<u32>, key: u32) -> bool {
    exists|i: int| 0 <= i < keys.len() && #[trigger] keys[i] == key
}

/// The index at which `key` stands among the IDs.
pub open spec fn key_index(keys: Seq<u32>, key: u32) -> int {
    choose|i: int| 0 <= i < keys.len() && #[trigger] keys[i] == key
}

/// No ID stands twice.
pub open spec fn distinct(keys: Seq<u32>) -> bool {
    forall|i: int, j: int|
        0 <= i < keys.len() && 0 <= j < keys.len() && i != j ==> #[trigger] keys[i] != #[trigger] keys[j]
}

/// Among distinct IDs an ID is found at the one index where it stands.
pub proof fn lemma_key_index(keys: Seq<u32>, i: int)
    requires
        distinct(keys),
        0 <= i < keys.len(),
    ensures
        has_key(keys, keys[i]),
        key_index(keys, keys[i]) == i,
{
    let k = keys[i];
    assert(0 <= i < keys.len() && keys[i] == k);
    let j = key_index(keys, k);
    assert(0 <= j < keys.len() && keys[j] == k);
}

/// Distinct IDs stay distinct when an ID joins that is not among them.
pub proof fn lemma_distinct_push(keys: Seq<u32>, key: u32)
    requires
        distinct(keys),
        !has_key(keys, key),
    ensures
        distinct(keys.push(key)),
{
    let after = keys.push(key);
    assert forall|i: int, j: int|
        0 <= i < after.len() && 0 <= j < after.len() && i != j implies #[trigger] after[i]
        != #[trigger] after[j] by {
        if i < keys.len() && j < keys.len() {
            assert(keys[i] != keys[j]);
        } else if i < keys.len() {
            assert(keys[i] == after[i]);
        } else {
            assert(keys[j] == after[j]);
        }
    }
}

/// Distinct IDs stay distinct when one of them leaves.
pub proof fn lemma_distinct_remove(keys: Seq<u32>, i: int)
    requires
        distinct(keys),
        0 <= i < keys.len(),
    ensures
        distinct(keys.remove(i)),
        !has_key(keys.remove(i), keys[i]),
{
    let after = keys.remove(i);
    assert forall|a: int, b: int|
        0 <= a < after.len() && 0 <= b < after.len() && a != b implies #[trigger] after[a]
        != #[trigger] after[b] by {
        let x = if a < i {
            a
        } else {
            a + 1
        };
        let y = if b < i {
            b
        } else {
            b + 1
        };
        assert(keys[x] != keys[y]);
    }
    if has_key(after, keys[i]) {
        let a = key_index(after, keys[i]);
        let x = if a < i {
            a
        } else {
            a + 1
        };
        assert(keys[x] != keys[i]);
    }
}

} // verus!
