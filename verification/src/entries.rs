//! The mathematics of a keyed list: a sequence of `(key, value)` entries kept
//! in the order in which their keys first arrived.
//!
//! Writing a key that is already present replaces its value where it stands;
//! writing a new key appends an entry. Read as a map, such a list holds for
//! each key the value that was written last.

use vstd::prelude::*;

verus! {

/// Some entry of `entries` has the key `key`.
pub open spec fn has_key<K, V>(entries: Seq<(K, V)>, key: K) -> bool {
    exists|i: int| 0 <= i < entries.len() && (#[trigger] entries[i]).0 == key
}

/// No two entries of `entries` share a key.
pub open spec fn keys_distinct<K, V>(entries: Seq<(K, V)>) -> bool {
    forall|i: int, j: int|
        0 <= i < j < entries.len() ==> (#[trigger] entries[i]).0 != (#[trigger] entries[j]).0
}

/// `i` is the position of the first entry with key `key`.
pub open spec fn is_first_index<K, V>(entries: Seq<(K, V)>, key: K, i: int) -> bool {
    &&& 0 <= i < entries.len()
    &&& entries[i].0 == key
    &&& forall|j: int| 0 <= j < i ==> (#[trigger] entries[j]).0 != key
}

/// `i` is the position of the last entry with key `key`.
pub open spec fn is_last_index<K, V>(entries: Seq<(K, V)>, key: K, i: int) -> bool {
    &&& 0 <= i < entries.len()
    &&& entries[i].0 == key
    &&& forall|j: int| i < j < entries.len() ==> (#[trigger] entries[j]).0 != key
}

/// The position of the first entry with key `key`, where there is one.
pub open spec fn first_index<K, V>(entries: Seq<(K, V)>, key: K) -> int {
    choose|i: int| is_first_index(entries, key, i)
}

/// The position of the last entry with key `key`, where there is one.
pub open spec fn last_index<K, V>(entries: Seq<(K, V)>, key: K) -> int {
    choose|i: int| is_last_index(entries, key, i)
}

/// The list after writing `value` under `key`: the first entry with that key
/// gets the new value and keeps its place; without such an entry a new one is
/// appended.
pub open spec fn put<K, V>(entries: Seq<(K, V)>, key: K, value: V) -> Seq<(K, V)> {
    if has_key(entries, key) {
        entries.update(first_index(entries, key), (key, value))
    } else {
        entries.push((key, value))
    }
}

/// The list after the writes of `writes`, applied to `entries` from first to
/// last.
pub open spec fn put_all<K, V>(entries: Seq<(K, V)>, writes: Seq<(K, V)>) -> Seq<(K, V)>
    decreases writes.len(),
{
    if writes.len() == 0 {
        entries
    } else {
        let (key, value) = writes.last();
        put(put_all(entries, writes.drop_last()), key, value)
    }
}

/// The list read as a map: each key that occurs, with the value of its first
/// entry.
pub open spec fn as_map<K, V>(entries: Seq<(K, V)>) -> Map<K, V> {
    Map::new(|key: K| has_key(entries, key), |key: K| entries[first_index(entries, key)].1)
}

/// What a series of writes amounts to: each key that was written, with the
/// value of the last write to it.
pub open spec fn last_writes<K, V>(writes: Seq<(K, V)>) -> Map<K, V> {
    Map::new(|key: K| has_key(writes, key), |key: K| writes[last_index(writes, key)].1)
}

/// A key that occurs has a first entry, and `first_index` names it.
pub proof fn lemma_first_index<K, V>(entries: Seq<(K, V)>, key: K)
    requires
        has_key(entries, key),
    ensures
        is_first_index(entries, key, first_index(entries, key)),
{
    let i = choose|i: int| 0 <= i < entries.len() && (#[trigger] entries[i]).0 == key;
    lemma_first_index_below(entries, key, i);
}

proof fn lemma_first_index_below<K, V>(entries: Seq<(K, V)>, key: K, i: int)
    requires
        0 <= i < entries.len(),
        entries[i].0 == key,
    ensures
        exists|f: int| is_first_index(entries, key, f),
    decreases i,
{
    if exists|j: int| 0 <= j < i && (#[trigger] entries[j]).0 == key {
        let j = choose|j: int| 0 <= j < i && (#[trigger] entries[j]).0 == key;
        lemma_first_index_below(entries, key, j);
    } else {
        assert(is_first_index(entries, key, i));
    }
}

/// A key that occurs has a last entry, and `last_index` names it.
pub proof fn lemma_last_index<K, V>(entries: Seq<(K, V)>, key: K)
    requires
        has_key(entries, key),
    ensures
        is_last_index(entries, key, last_index(entries, key)),
{
    let i = choose|i: int| 0 <= i < entries.len() && (#[trigger] entries[i]).0 == key;
    lemma_last_index_above(entries, key, i);
}

proof fn lemma_last_index_above<K, V>(entries: Seq<(K, V)>, key: K, i: int)
    requires
        0 <= i < entries.len(),
        entries[i].0 == key,
    ensures
        exists|l: int| is_last_index(entries, key, l),
    decreases entries.len() - i,
{
    if exists|j: int| i < j < entries.len() && (#[trigger] entries[j]).0 == key {
        let j = choose|j: int| i < j < entries.len() && (#[trigger] entries[j]).0 == key;
        lemma_last_index_above(entries, key, j);
    } else {
        assert(is_last_index(entries, key, i));
    }
}

/// The first entry with a given key is at one position only.
pub proof fn lemma_first_index_is<K, V>(entries: Seq<(K, V)>, key: K, i: int)
    requires
        is_first_index(entries, key, i),
    ensures
        has_key(entries, key),
        first_index(entries, key) == i,
{
    lemma_first_index(entries, key);
}

/// The last entry with a given key is at one position only.
pub proof fn lemma_last_index_is<K, V>(entries: Seq<(K, V)>, key: K, i: int)
    requires
        is_last_index(entries, key, i),
    ensures
        has_key(entries, key),
        last_index(entries, key) == i,
{
    lemma_last_index(entries, key);
}

/// A write changes the keys that occur by the written key at most.
pub proof fn lemma_put_has_key<K, V>(entries: Seq<(K, V)>, key: K, value: V, other: K)
    ensures
        has_key(put(entries, key, value), other) <==> other == key || has_key(entries, other),
{
    let after = put(entries, key, value);
    if has_key(entries, key) {
        lemma_first_index(entries, key);
        let f = first_index(entries, key);
        assert(after[f].0 == key);
        if has_key(entries, other) {
            let i = choose|i: int| 0 <= i < entries.len() && (#[trigger] entries[i]).0 == other;
            assert(after[i].0 == other);
        }
        if has_key(after, other) {
            let i = choose|i: int| 0 <= i < after.len() && (#[trigger] after[i]).0 == other;
            assert(entries[i].0 == other);
        }
    } else {
        assert(after[entries.len() as int].0 == key);
        if has_key(entries, other) {
            let i = choose|i: int| 0 <= i < entries.len() && (#[trigger] entries[i]).0 == other;
            assert(after[i].0 == other);
        }
        if has_key(after, other) && other != key {
            let i = choose|i: int| 0 <= i < after.len() && (#[trigger] after[i]).0 == other;
            assert(entries[i].0 == other);
        }
    }
}

/// A write to a list without repeated keys leaves it without repeated keys.
pub proof fn lemma_put_keys_distinct<K, V>(entries: Seq<(K, V)>, key: K, value: V)
    requires
        keys_distinct(entries),
    ensures
        keys_distinct(put(entries, key, value)),
{
    let after = put(entries, key, value);
    if has_key(entries, key) {
        lemma_first_index(entries, key);
        assert forall|i: int, j: int| 0 <= i < j < after.len() implies (#[trigger] after[i]).0
            != (#[trigger] after[j]).0 by {
            assert(after[i].0 == entries[i].0);
            assert(after[j].0 == entries[j].0);
        }
    } else {
        assert forall|i: int, j: int| 0 <= i < j < after.len() implies (#[trigger] after[i]).0
            != (#[trigger] after[j]).0 by {
            assert(after[i] == entries[i]);
            if j < entries.len() {
                assert(after[j] == entries[j]);
            }
        }
    }
}

/// Read as a map, a write is an insertion: the written key now has the written
/// value, and every other key has what it had.
pub proof fn lemma_put_as_map<K, V>(entries: Seq<(K, V)>, key: K, value: V)
    ensures
        as_map(put(entries, key, value)) == as_map(entries).insert(key, value),
{
    let after = put(entries, key, value);
    let inserted = as_map(entries).insert(key, value);
    assert forall|other: K| as_map(after).dom().contains(other) <==> inserted.dom().contains(
        other,
    ) by {
        lemma_put_has_key(entries, key, value, other);
    }
    assert forall|other: K| #[trigger]
        as_map(after).dom().contains(other) implies as_map(after)[other] == inserted[other] by {
        lemma_put_has_key(entries, key, value, other);
        lemma_first_index(after, other);
        let a = first_index(after, other);
        if has_key(entries, key) {
            lemma_first_index(entries, key);
            assert forall|j: int| 0 <= j < a implies (#[trigger] entries[j]).0 != other by {
                assert(after[j].0 == entries[j].0);
            }
            assert(is_first_index(entries, other, a));
            lemma_first_index_is(entries, other, a);
        } else if other == key {
            assert forall|j: int| 0 <= j < entries.len() implies (#[trigger] after[j]).0
                != key by {
                assert(after[j] == entries[j]);
            }
            assert(a == entries.len());
        } else {
            assert(a < entries.len());
            assert forall|j: int| 0 <= j < a implies (#[trigger] entries[j]).0 != other by {
                assert(after[j] == entries[j]);
            }
            assert(is_first_index(entries, other, a));
            lemma_first_index_is(entries, other, a);
        }
    }
    assert(as_map(after) =~= inserted);
}

/// A list without repeated keys has, as its set of entries, the pairs of the
/// map it stands for.
pub proof fn lemma_entries_are_map_pairs<K, V>(entries: Seq<(K, V)>)
    requires
        keys_distinct(entries),
    ensures
        entries.to_set() == as_map(entries).kv_pairs(),
{
    let pairs = as_map(entries).kv_pairs();
    assert forall|pair: (K, V)| entries.to_set().contains(pair) <==> pairs.contains(pair) by {
        if entries.to_set().contains(pair) {
            let i = choose|i: int| 0 <= i < entries.len() && entries[i] == pair;
            assert(entries[i].0 == pair.0);
            assert(is_first_index(entries, pair.0, i));
            lemma_first_index_is(entries, pair.0, i);
        }
        if pairs.contains(pair) {
            lemma_first_index(entries, pair.0);
            assert(entries[first_index(entries, pair.0)] == pair);
        }
    }
    assert(entries.to_set() =~= pairs);
}

/// Last write wins: after any series of writes the list still has no repeated
/// keys, and read as a map it is the map from before, overridden for each
/// written key by the value of the last write to that key.
pub proof fn lemma_put_all_last_write_wins<K, V>(entries: Seq<(K, V)>, writes: Seq<(K, V)>)
    requires
        keys_distinct(entries),
    ensures
        keys_distinct(put_all(entries, writes)),
        as_map(put_all(entries, writes)) == as_map(entries).union_prefer_right(
            last_writes(writes),
        ),
    decreases writes.len(),
{
    let expected = as_map(entries).union_prefer_right(last_writes(writes));
    if writes.len() == 0 {
        assert(as_map(entries) =~= expected);
    } else {
        let earlier = writes.drop_last();
        let (key, value) = writes.last();
        let before = put_all(entries, earlier);
        lemma_put_all_last_write_wins(entries, earlier);
        lemma_put_keys_distinct(before, key, value);
        lemma_put_as_map(before, key, value);
        lemma_last_writes_push(earlier, key, value);
        assert(writes == earlier.push((key, value)));
        assert(as_map(before).insert(key, value) =~= expected);
    }
}

/// One more write at the end of a series overrides what the series amounted to
/// for the written key, and nothing else.
pub proof fn lemma_last_writes_push<K, V>(writes: Seq<(K, V)>, key: K, value: V)
    ensures
        last_writes(writes.push((key, value))) == last_writes(writes).insert(key, value),
{
    let longer = writes.push((key, value));
    let inserted = last_writes(writes).insert(key, value);
    let n = writes.len() as int;
    assert(longer[n].0 == key);
    assert forall|other: K| last_writes(longer).dom().contains(other) <==> inserted.dom().contains(
        other,
    ) by {
        if has_key(writes, other) {
            let i = choose|i: int| 0 <= i < writes.len() && (#[trigger] writes[i]).0 == other;
            assert(longer[i].0 == other);
        }
        if has_key(longer, other) && other != key {
            let i = choose|i: int| 0 <= i < longer.len() && (#[trigger] longer[i]).0 == other;
            assert(writes[i].0 == other);
        }
    }
    assert forall|other: K| #[trigger]
        last_writes(longer).dom().contains(other) implies last_writes(longer)[other]
        == inserted[other] by {
        if other == key {
            assert(is_last_index(longer, key, n));
            lemma_last_index_is(longer, key, n);
        } else {
            lemma_last_index(longer, other);
            let l = last_index(longer, other);
            assert(l < n);
            assert forall|j: int| l < j < writes.len() implies (#[trigger] writes[j]).0
                != other by {
                assert(longer[j] == writes[j]);
            }
            assert(writes[l] == longer[l]);
            assert(is_last_index(writes, other, l));
            lemma_last_index_is(writes, other, l);
        }
    }
    assert(last_writes(longer) =~= inserted);
}

} // verus!
