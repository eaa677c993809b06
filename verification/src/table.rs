//! Small keyed tables held as vectors of `(key, value)` pairs, with at most
//! one entry per key. Inserting replaces an entry; the newest entry is last.

use vstd::prelude::*;

verus! {

/// The value stored under `key`: the last entry with that key.
pub open spec fn lookup<K, V>(entries: Seq<(K, V)>, key: K) -> Option<V>
    decreases entries.len(),
{
    if entries.len() == 0 {
        None
    } else if entries.last().0 == key {
        Some(entries.last().1)
    } else {
        lookup(entries.drop_last(), key)
    }
}

/// No key occurs twice.
pub open spec fn unique_keys<K, V>(entries: Seq<(K, V)>) -> bool {
    forall|i: int, j: int| 0 <= i < j < entries.len() ==> #[trigger] entries[i].0 != #[trigger] entries[j].0
}

/// The entries whose key differs from `key`, in order.
pub open spec fn without_key<K, V>(entries: Seq<(K, V)>, key: K) -> Seq<(K, V)>
    decreases entries.len(),
{
    if entries.len() == 0 {
        entries
    } else {
        let earlier = without_key(entries.drop_last(), key);
        if entries.last().0 == key {
            earlier
        } else {
            earlier.push(entries.last())
        }
    }
}

/// The entries whose value differs from `value`, in order.
pub open spec fn without_value<K, V>(entries: Seq<(K, V)>, value: V) -> Seq<(K, V)>
    decreases entries.len(),
{
    if entries.len() == 0 {
        entries
    } else {
        let earlier = without_value(entries.drop_last(), value);
        if entries.last().1 == value {
            earlier
        } else {
            earlier.push(entries.last())
        }
    }
}

/// The entries whose value is one of `values`, in order.
pub open spec fn with_values_in<K, V>(entries: Seq<(K, V)>, values: Seq<V>) -> Seq<(K, V)>
    decreases entries.len(),
{
    if entries.len() == 0 {
        entries
    } else {
        let earlier = with_values_in(entries.drop_last(), values);
        if values.contains(entries.last().1) {
            earlier.push(entries.last())
        } else {
            earlier
        }
    }
}

/// The table after inserting `value` under `key` (replacing any entry).
pub open spec fn insert_entry<K, V>(entries: Seq<(K, V)>, key: K, value: V) -> Seq<(K, V)> {
    without_key(entries, key).push((key, value))
}

/// The values of the table, in order.
pub open spec fn values_of<K, V>(entries: Seq<(K, V)>) -> Seq<V> {
    entries.map_values(|entry: (K, V)| entry.1)
}

pub proof fn lemma_without_key_lookup<K, V>(entries: Seq<(K, V)>, key: K, other: K)
    ensures
        lookup(without_key(entries, key), other) == if other == key { None } else { lookup(entries, other) },
    decreases entries.len(),
{
    if entries.len() > 0 {
        lemma_without_key_lookup(entries.drop_last(), key, other);
        let earlier = without_key(entries.drop_last(), key);
        assert(earlier.push(entries.last()).drop_last() =~= earlier);
    }
}

pub proof fn lemma_without_key_subset<K, V>(entries: Seq<(K, V)>, key: K)
    ensures
        without_key(entries, key).len() <= entries.len(),
        forall|i: int| 0 <= i < without_key(entries, key).len() ==>
            #[trigger] without_key(entries, key)[i].0 != key
            && exists|j: int| 0 <= j < entries.len() && entries[j] == without_key(entries, key)[i],
    decreases entries.len(),
{
    if entries.len() > 0 {
        lemma_without_key_subset(entries.drop_last(), key);
        let earlier = without_key(entries.drop_last(), key);
        assert forall|i: int| 0 <= i < without_key(entries, key).len() implies
            #[trigger] without_key(entries, key)[i].0 != key
            && exists|j: int| 0 <= j < entries.len() && entries[j] == without_key(entries, key)[i] by {
            if i < earlier.len() {
                let j = choose|j: int| 0 <= j < entries.drop_last().len() && entries.drop_last()[j] == earlier[i];
                assert(entries[j] == without_key(entries, key)[i]);
            } else {
                assert(entries[entries.len() - 1] == without_key(entries, key)[i]);
            }
        }
    }
}

pub proof fn lemma_unique_insert<K, V>(entries: Seq<(K, V)>, key: K, value: V)
    requires
        unique_keys(entries),
    ensures
        unique_keys(insert_entry(entries, key, value)),
{
    lemma_without_key_subset(entries, key);
    lemma_unique_subsequence_without_key(entries, key);
}

proof fn lemma_unique_subsequence_without_key<K, V>(entries: Seq<(K, V)>, key: K)
    requires
        unique_keys(entries),
    ensures
        unique_keys(without_key(entries, key)),
    decreases entries.len(),
{
    if entries.len() > 0 {
        let earlier_entries = entries.drop_last();
        assert(unique_keys(earlier_entries)) by {
            assert forall|i: int, j: int| 0 <= i < j < earlier_entries.len() implies
                #[trigger] earlier_entries[i].0 != #[trigger] earlier_entries[j].0 by {
                assert(entries[i] == earlier_entries[i] && entries[j] == earlier_entries[j]);
            }
        }
        lemma_unique_subsequence_without_key(earlier_entries, key);
        lemma_without_key_subset(earlier_entries, key);
        let earlier = without_key(earlier_entries, key);
        if entries.last().0 != key {
            let result = earlier.push(entries.last());
            assert forall|i: int, j: int| 0 <= i < j < result.len() implies
                #[trigger] result[i].0 != #[trigger] result[j].0 by {
                if j == result.len() - 1 {
                    let k = choose|k: int| 0 <= k < earlier_entries.len() && earlier_entries[k] == earlier[i];
                    assert(entries[k] == earlier[i]);
                    assert(entries[entries.len() - 1] == entries.last());
                } else {
                    assert(result[i] == earlier[i] && result[j] == earlier[j]);
                }
            }
        }
    }
}

pub proof fn lemma_unique_without_value<K, V>(entries: Seq<(K, V)>, value: V)
    requires
        unique_keys(entries),
    ensures
        unique_keys(without_value(entries, value)),
        forall|i: int| 0 <= i < without_value(entries, value).len() ==>
            exists|j: int| 0 <= j < entries.len() && entries[j] == #[trigger] without_value(entries, value)[i],
    decreases entries.len(),
{
    if entries.len() > 0 {
        let earlier_entries = entries.drop_last();
        assert(unique_keys(earlier_entries)) by {
            assert forall|i: int, j: int| 0 <= i < j < earlier_entries.len() implies
                #[trigger] earlier_entries[i].0 != #[trigger] earlier_entries[j].0 by {
                assert(entries[i] == earlier_entries[i] && entries[j] == earlier_entries[j]);
            }
        }
        lemma_unique_without_value(earlier_entries, value);
        let earlier = without_value(earlier_entries, value);
        let result = without_value(entries, value);
        assert forall|i: int| 0 <= i < result.len() implies
            exists|j: int| 0 <= j < entries.len() && entries[j] == #[trigger] result[i] by {
            if i < earlier.len() {
                let k = choose|k: int| 0 <= k < earlier_entries.len() && earlier_entries[k] == earlier[i];
                assert(entries[k] == result[i]);
            } else {
                assert(entries[entries.len() - 1] == result[i]);
            }
        }
        if entries.last().1 != value {
            assert forall|i: int, j: int| 0 <= i < j < result.len() implies
                #[trigger] result[i].0 != #[trigger] result[j].0 by {
                if j == result.len() - 1 {
                    let k = choose|k: int| 0 <= k < earlier_entries.len() && earlier_entries[k] == earlier[i];
                    assert(entries[k] == earlier[i]);
                    assert(entries[entries.len() - 1] == entries.last());
                } else {
                    assert(result[i] == earlier[i] && result[j] == earlier[j]);
                }
            }
        }
    }
}

pub proof fn lemma_unique_with_values_in<K, V>(entries: Seq<(K, V)>, values: Seq<V>)
    requires
        unique_keys(entries),
    ensures
        unique_keys(with_values_in(entries, values)),
        forall|i: int| 0 <= i < with_values_in(entries, values).len() ==>
            exists|j: int| 0 <= j < entries.len() && entries[j] == #[trigger] with_values_in(entries, values)[i],
    decreases entries.len(),
{
    if entries.len() > 0 {
        let earlier_entries = entries.drop_last();
        assert(unique_keys(earlier_entries)) by {
            assert forall|i: int, j: int| 0 <= i < j < earlier_entries.len() implies
                #[trigger] earlier_entries[i].0 != #[trigger] earlier_entries[j].0 by {
                assert(entries[i] == earlier_entries[i] && entries[j] == earlier_entries[j]);
            }
        }
        lemma_unique_with_values_in(earlier_entries, values);
        let earlier = with_values_in(earlier_entries, values);
        let result = with_values_in(entries, values);
        assert forall|i: int| 0 <= i < result.len() implies
            exists|j: int| 0 <= j < entries.len() && entries[j] == #[trigger] result[i] by {
            if i < earlier.len() {
                let k = choose|k: int| 0 <= k < earlier_entries.len() && earlier_entries[k] == earlier[i];
                assert(entries[k] == result[i]);
            } else {
                assert(entries[entries.len() - 1] == result[i]);
            }
        }
        if values.contains(entries.last().1) {
            assert forall|i: int, j: int| 0 <= i < j < result.len() implies
                #[trigger] result[i].0 != #[trigger] result[j].0 by {
                if j == result.len() - 1 {
                    let k = choose|k: int| 0 <= k < earlier_entries.len() && earlier_entries[k] == earlier[i];
                    assert(entries[k] == earlier[i]);
                    assert(entries[entries.len() - 1] == entries.last());
                } else {
                    assert(result[i] == earlier[i] && result[j] == earlier[j]);
                }
            }
        }
    }
}

pub proof fn lemma_insert_lookup<K, V>(entries: Seq<(K, V)>, key: K, value: V, other: K)
    ensures
        lookup(insert_entry(entries, key, value), other) == if other == key { Some(value) } else { lookup(entries, other) },
{
    let inserted = insert_entry(entries, key, value);
    assert(inserted.drop_last() =~= without_key(entries, key));
    if other != key {
        lemma_without_key_lookup(entries, key, other);
    }
}

/// Value stored under `key` in a table keyed by peer.
pub fn lookup_u128(entries: &Vec<(u128, u64)>, key: u128) -> (found: Option<u64>)
    ensures
        found == lookup(entries@, key),
{
    let mut index = entries.len();
    assert(entries@.take(index as int) =~= entries@);
    while index > 0
        invariant
            index <= entries.len(),
            lookup(entries@, key) == lookup(entries@.take(index as int), key),
        decreases index,
    {
        assert(entries@.take(index as int).drop_last() =~= entries@.take(index - 1));
        if entries[index - 1].0 == key {
            return Some(entries[index - 1].1);
        }
        index = index - 1;
    }
    None
}

/// Value stored under `key` in a table keyed by player.
pub fn lookup_u64(entries: &Vec<(u64, u64)>, key: u64) -> (found: Option<u64>)
    ensures
        found == lookup(entries@, key),
{
    let mut index = entries.len();
    assert(entries@.take(index as int) =~= entries@);
    while index > 0
        invariant
            index <= entries.len(),
            lookup(entries@, key) == lookup(entries@.take(index as int), key),
        decreases index,
    {
        assert(entries@.take(index as int).drop_last() =~= entries@.take(index - 1));
        if entries[index - 1].0 == key {
            return Some(entries[index - 1].1);
        }
        index = index - 1;
    }
    None
}

/// Value stored under a text key.
pub fn lookup_string(entries: &Vec<(String, u64)>, key: &String) -> (found: Option<u64>)
    ensures
        found == lookup(string_table_view(entries@), key@),
{
    let mut index = entries.len();
    assert(entries@.take(index as int) =~= entries@);
    while index > 0
        invariant
            index <= entries.len(),
            lookup(string_table_view(entries@), key@) == lookup(string_table_view(entries@.take(index as int)), key@),
        decreases index,
    {
        assert(entries@.take(index as int).drop_last() =~= entries@.take(index - 1));
        assert(string_table_view(entries@.take(index as int)).drop_last() =~= string_table_view(entries@.take(index - 1)));
        if entries[index - 1].0 == *key {
            return Some(entries[index - 1].1);
        }
        index = index - 1;
    }
    None
}

/// A text-keyed table as a table of character sequences.
pub open spec fn string_table_view(entries: Seq<(String, u64)>) -> Seq<(Seq<char>, u64)> {
    entries.map_values(|entry: (String, u64)| (entry.0@, entry.1))
}

pub fn remove_key_u128(entries: &mut Vec<(u128, u64)>, key: u128)
    ensures
        final(entries)@ == without_key(old(entries)@, key),
{
    let mut kept: Vec<(u128, u64)> = Vec::new();
    let mut index: usize = 0;
    while index < entries.len()
        invariant
            index <= entries.len(),
            kept@ == without_key(entries@.take(index as int), key),
        decreases entries.len() - index,
    {
        assert(entries@.take(index + 1).drop_last() =~= entries@.take(index as int));
        let entry = entries[index];
        if entry.0 != key {
            kept.push(entry);
        }
        index = index + 1;
    }
    assert(entries@.take(entries.len() as int) =~= entries@);
    *entries = kept;
}

pub fn remove_key_u64(entries: &mut Vec<(u64, u64)>, key: u64)
    ensures
        final(entries)@ == without_key(old(entries)@, key),
{
    let mut kept: Vec<(u64, u64)> = Vec::new();
    let mut index: usize = 0;
    while index < entries.len()
        invariant
            index <= entries.len(),
            kept@ == without_key(entries@.take(index as int), key),
        decreases entries.len() - index,
    {
        assert(entries@.take(index + 1).drop_last() =~= entries@.take(index as int));
        let entry = entries[index];
        if entry.0 != key {
            kept.push(entry);
        }
        index = index + 1;
    }
    assert(entries@.take(entries.len() as int) =~= entries@);
    *entries = kept;
}

pub fn remove_value_u128(entries: &mut Vec<(u128, u64)>, value: u64)
    ensures
        final(entries)@ == without_value(old(entries)@, value),
{
    let mut kept: Vec<(u128, u64)> = Vec::new();
    let mut index: usize = 0;
    while index < entries.len()
        invariant
            index <= entries.len(),
            kept@ == without_value(entries@.take(index as int), value),
        decreases entries.len() - index,
    {
        assert(entries@.take(index + 1).drop_last() =~= entries@.take(index as int));
        let entry = entries[index];
        if entry.1 != value {
            kept.push(entry);
        }
        index = index + 1;
    }
    assert(entries@.take(entries.len() as int) =~= entries@);
    *entries = kept;
}

pub fn remove_key_string(entries: &mut Vec<(String, u64)>, key: &String)
    ensures
        string_table_view(final(entries)@) == without_key(string_table_view(old(entries)@), key@),
{
    let mut kept: Vec<(String, u64)> = Vec::new();
    let mut index: usize = 0;
    while index < entries.len()
        invariant
            index <= entries.len(),
            string_table_view(kept@) == without_key(string_table_view(entries@.take(index as int)), key@),
        decreases entries.len() - index,
    {
        assert(entries@.take(index + 1).drop_last() =~= entries@.take(index as int));
        assert(string_table_view(entries@.take(index + 1)).drop_last() =~= string_table_view(entries@.take(index as int)));
        let entry = &entries[index];
        if entry.0 != *key {
            let ghost before = kept@;
            kept.push((entry.0.clone(), entry.1));
            assert(string_table_view(kept@) =~= string_table_view(before).push((entry.0@, entry.1)));
        }
        index = index + 1;
    }
    assert(entries@.take(entries.len() as int) =~= entries@);
    *entries = kept;
}

/// Whether `value` occurs in `values`.
pub fn contains_u64(values: &Vec<u64>, value: u64) -> (found: bool)
    ensures
        found == values@.contains(value),
{
    let mut index: usize = 0;
    while index < values.len()
        invariant
            index <= values.len(),
            forall|i: int| 0 <= i < index ==> values@[i] != value,
        decreases values.len() - index,
    {
        if values[index] == value {
            return true;
        }
        index = index + 1;
    }
    false
}

} // verus!
