//! Tables held as a list of keys and a list of values: what the map is that
//! two such lists stand for, and how it changes when the lists do.

use vstd::prelude::*;

verus! {

/// No key occurs twice.
pub open spec fn distinct<K>(keys: Seq<K>) -> bool {
    forall|i: int, j: int| 0 <= i < j < keys.len() ==> #[trigger] keys[i] != #[trigger] keys[j]
}

/// Whether the key occurs.
pub open spec fn holds<K>(keys: Seq<K>, key: K) -> bool {
    exists|i: int| 0 <= i < keys.len() && #[trigger] keys[i] == key
}

/// A place at which the key occurs.
pub open spec fn place<K>(keys: Seq<K>, key: K) -> int {
    choose|i: int| 0 <= i < keys.len() && #[trigger] keys[i] == key
}

/// The map that a list of keys and a list of values stand for: each key that
/// occurs, with the value at its place.
pub open spec fn table<K, V>(keys: Seq<K>, values: Seq<V>) -> Map<K, V> {
    Map::new(|key: K| holds(keys, key), |key: K| values[place(keys, key)])
}

/// With distinct keys, the map holds for the key at each place the value at
/// that place.
pub proof fn lemma_table_at<K, V>(keys: Seq<K>, values: Seq<V>, i: int)
    requires
        distinct(keys),
        0 <= i < keys.len(),
    ensures
        holds(keys, keys[i]),
        place(keys, keys[i]) == i,
        table(keys, values).dom().contains(keys[i]),
        table(keys, values)[keys[i]] == values[i],
{
    let key = keys[i];
    assert(holds(keys, key));
    let j = place(keys, key);
    assert(keys[j] == key);
    assert(j == i);
}

/// Appending a new key with a value adds the two to the map.
pub proof fn lemma_table_push<K, V>(keys: Seq<K>, values: Seq<V>, key: K, value: V)
    requires
        distinct(keys),
        keys.len() == values.len(),
        !holds(keys, key),
    ensures
        distinct(keys.push(key)),
        table(keys.push(key), values.push(value)) == table(keys, values).insert(key, value),
{
    let after = keys.push(key);
    let last = keys.len() as int;
    assert forall|i: int, j: int| 0 <= i < j < after.len() implies #[trigger] after[i]
        != #[trigger] after[j] by {
        assert(after[i] == keys[i]);
        if j < last {
            assert(after[j] == keys[j]);
        }
    }
    let expected = table(keys, values).insert(key, value);
    assert forall|k: K| #[trigger]
        table(after, values.push(value)).dom().contains(k) == expected.dom().contains(k) by {
        if holds(after, k) {
            let j = place(after, k);
            if j < last {
                assert(keys[j] == k);
            }
        }
        if holds(keys, k) {
            let j = place(keys, k);
            assert(after[j] == k);
        }
        if k == key {
            assert(after[last] == k);
        }
    }
    assert forall|k: K| #[trigger]
        table(after, values.push(value)).dom().contains(k) implies table(
        after,
        values.push(value),
    )[k] == expected[k] by {
        let j = place(after, k);
        lemma_table_at(after, values.push(value), j);
        if j < last {
            assert(keys[j] == k);
            lemma_table_at(keys, values, j);
        }
    }
    assert(table(after, values.push(value)) =~= expected);
}

/// Replacing the value at a place changes the map at the key of that place
/// only.
pub proof fn lemma_table_update<K, V>(keys: Seq<K>, values: Seq<V>, i: int, value: V)
    requires
        distinct(keys),
        keys.len() == values.len(),
        0 <= i < keys.len(),
    ensures
        table(keys, values.update(i, value)) == table(keys, values).insert(keys[i], value),
{
    let expected = table(keys, values).insert(keys[i], value);
    assert forall|k: K| #[trigger]
        table(keys, values.update(i, value)).dom().contains(k) == expected.dom().contains(k) by {
        if k == keys[i] {
            assert(holds(keys, k));
        }
    }
    assert forall|k: K| #[trigger]
        table(keys, values.update(i, value)).dom().contains(k) implies table(
        keys,
        values.update(i, value),
    )[k] == expected[k] by {
        let j = place(keys, k);
        lemma_table_at(keys, values.update(i, value), j);
        lemma_table_at(keys, values, j);
    }
    assert(table(keys, values.update(i, value)) =~= expected);
}

} // verus!
