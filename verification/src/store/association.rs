//! Maps kept as two sequences of equal length, keys without repetition
//! beside their values: the shape behind records and tables.

use vstd::prelude::*;

verus! {

/// The map that sends each key to the value at the key's position.
pub open spec fn lookup_map<K, V>(keys: Seq<K>, values: Seq<V>) -> Map<K, V> {
    Map::new(|key: K| keys.contains(key), |key: K| values[keys.index_of(key)])
}

/// The key at a position is mapped to the value at that position.
pub proof fn lemma_lookup<K, V>(keys: Seq<K>, values: Seq<V>, i: int)
    requires
        keys.no_duplicates(),
        keys.len() == values.len(),
        0 <= i < keys.len(),
    ensures
        lookup_map(keys, values).contains_key(keys[i]),
        lookup_map(keys, values)[keys[i]] == values[i],
{
    assert(keys.contains(keys[i]));
    let j = keys.index_of(keys[i]);
    assert(keys[j] == keys[i]);
}

/// Replacing the value at a position changes the map at that key alone.
pub proof fn lemma_replace<K, V>(keys: Seq<K>, values: Seq<V>, i: int, value: V)
    requires
        keys.no_duplicates(),
        keys.len() == values.len(),
        0 <= i < keys.len(),
    ensures
        lookup_map(keys, values.update(i, value)) == lookup_map(keys, values).insert(keys[i], value),
{
    let after = lookup_map(keys, values.update(i, value));
    let expected = lookup_map(keys, values).insert(keys[i], value);
    assert(keys.contains(keys[i]));
    assert forall|key: K| after.contains_key(key) implies after[key] == expected[key] by {
        let j = keys.index_of(key);
        lemma_lookup(keys, values.update(i, value), j);
        lemma_lookup(keys, values, j);
    }
    assert(after =~= expected);
}

/// Appending a key that is new, with its value, adds that one entry.
pub proof fn lemma_append<K, V>(keys: Seq<K>, values: Seq<V>, key: K, value: V)
    requires
        keys.no_duplicates(),
        keys.len() == values.len(),
        !keys.contains(key),
    ensures
        keys.push(key).no_duplicates(),
        lookup_map(keys.push(key), values.push(value)) == lookup_map(keys, values).insert(
            key,
            value,
        ),
{
    let more_keys = keys.push(key);
    let more_values = values.push(value);
    let after = lookup_map(more_keys, more_values);
    let expected = lookup_map(keys, values).insert(key, value);
    assert forall|a: int, b: int|
        0 <= a < more_keys.len() && 0 <= b < more_keys.len() && a != b implies more_keys[a]
        != more_keys[b] by {
        if a < keys.len() {
            assert(keys.contains(more_keys[a]));
        }
        if b < keys.len() {
            assert(keys.contains(more_keys[b]));
        }
    }
    assert forall|k: K| after.contains_key(k) == expected.contains_key(k) by {
        if more_keys.contains(k) {
            let j = more_keys.index_of(k);
            if j < keys.len() {
                assert(keys[j] == k);
            }
        }
        if keys.contains(k) {
            let j = keys.index_of(k);
            assert(more_keys[j] == k);
        }
        if k == key {
            assert(more_keys[keys.len() as int] == k);
        }
    }
    assert forall|k: K| after.contains_key(k) implies after[k] == expected[k] by {
        let j = more_keys.index_of(k);
        lemma_lookup(more_keys, more_values, j);
        if j < keys.len() {
            assert(keys[j] == k);
            lemma_lookup(keys, values, j);
        }
    }
    assert(after =~= expected);
}

} // verus!
