//! The ordered key/value store behind an environment snapshot.
//!
//! The store itself is `indexmap::IndexMap<String, String>`: an insertion-
//! ordered map in which inserting an existing key updates the value in place,
//! keeping the key's original position.  Verified code reaches it only
//! through the wrappers below; what a map holds is named by `env_entries`, a
//! sequence of key/value pairs in insertion order, and every wrapper contract
//! speaks over that name.

use indexmap::IndexMap;
use vstd::prelude::*;

verus! {

#[verifier::external_type_specification]
#[verifier::external_body]
#[verifier::reject_recursive_types(K)]
#[verifier::reject_recursive_types(V)]
#[verifier::reject_recursive_types(S)]
pub struct ExIndexMap<K, V, S>(IndexMap<K, V, S>);

/// The key/value pairs an environment map holds, in order.
pub uninterp spec fn env_entries(m: IndexMap<String, String>) -> Seq<(Seq<char>, Seq<char>)>;

/// Whether some entry carries `key`.
pub open spec fn has_key(entries: Seq<(Seq<char>, Seq<char>)>, key: Seq<char>) -> bool {
    exists|i: int| 0 <= i < entries.len() && entries[i].0 == key
}

/// The first position whose entry carries `key`; `entries.len()` if none does.
pub open spec fn key_index(entries: Seq<(Seq<char>, Seq<char>)>, key: Seq<char>) -> int
    decreases entries.len(),
{
    if entries.len() == 0 {
        0
    } else if entries[0].0 == key {
        0
    } else {
        1 + key_index(entries.drop_first(), key)
    }
}

/// The value stored under `key`, at its first position.
pub open spec fn lookup(entries: Seq<(Seq<char>, Seq<char>)>, key: Seq<char>) -> Seq<char> {
    entries[key_index(entries, key)].1
}

/// No two entries carry the same key.
pub open spec fn keys_unique(entries: Seq<(Seq<char>, Seq<char>)>) -> bool {
    forall|i: int, j: int|
        0 <= i < j < entries.len() ==> entries[i].0 != entries[j].0
}

/// One assignment applied to an entry sequence: an existing key keeps its
/// position and takes the new value, an absent key is appended last.
pub open spec fn upsert(
    entries: Seq<(Seq<char>, Seq<char>)>,
    key: Seq<char>,
    value: Seq<char>,
) -> Seq<(Seq<char>, Seq<char>)> {
    if has_key(entries, key) {
        entries.update(key_index(entries, key), (key, value))
    } else {
        entries.push((key, value))
    }
}

/// `key_index` finds the first occurrence of `key`, and stays within bounds
/// exactly when the key is present.
pub proof fn lemma_key_index(entries: Seq<(Seq<char>, Seq<char>)>, key: Seq<char>)
    ensures
        has_key(entries, key) <==> key_index(entries, key) < entries.len(),
        0 <= key_index(entries, key) <= entries.len(),
        has_key(entries, key) ==> entries[key_index(entries, key)].0 == key,
        forall|j: int| 0 <= j < key_index(entries, key) ==> entries[j].0 != key,
    decreases entries.len(),
{
    if entries.len() == 0 {
    } else if entries[0].0 == key {
    } else {
        lemma_key_index(entries.drop_first(), key);
        assert forall|j: int| 0 <= j < key_index(entries, key) implies entries[j].0
            != key by {
            if j > 0 {
                assert(entries.drop_first()[j - 1] == entries[j]);
            }
        }
        if has_key(entries, key) {
            let i = choose|i: int| 0 <= i < entries.len() && entries[i].0 == key;
            assert(entries.drop_first()[i - 1] == entries[i]);
            assert(has_key(entries.drop_first(), key));
        }
        if has_key(entries.drop_first(), key) {
            let i = choose|i: int|
                0 <= i < entries.drop_first().len() && entries.drop_first()[i].0 == key;
            assert(entries[i + 1] == entries.drop_first()[i]);
            assert(has_key(entries, key));
        }
    }
}

/// An assignment never introduces a duplicate key.
pub proof fn lemma_upsert_keys_unique(
    entries: Seq<(Seq<char>, Seq<char>)>,
    key: Seq<char>,
    value: Seq<char>,
)
    requires
        keys_unique(entries),
    ensures
        keys_unique(upsert(entries, key, value)),
{
    lemma_key_index(entries, key);
    if has_key(entries, key) {
        let i = key_index(entries, key);
        let updated = entries.update(i, (key, value));
        assert forall|p: int, q: int| 0 <= p < q < updated.len() implies updated[p].0
            != updated[q].0 by {
            if p != i && q != i {
                assert(updated[p] == entries[p]);
                assert(updated[q] == entries[q]);
            }
        }
    } else {
        let pushed = entries.push((key, value));
        assert forall|p: int, q: int| 0 <= p < q < pushed.len() implies pushed[p].0
            != pushed[q].0 by {
            if q < entries.len() {
                assert(pushed[p] == entries[p]);
                assert(pushed[q] == entries[q]);
            } else {
                assert(pushed[q].0 == key);
                assert(pushed[p] == entries[p]);
            }
        }
    }
}

/// A position that carries `key`, with no earlier position carrying it, is
/// the one `key_index` returns.
pub proof fn lemma_key_index_at(entries: Seq<(Seq<char>, Seq<char>)>, key: Seq<char>, j: int)
    requires
        0 <= j < entries.len(),
        entries[j].0 == key,
        forall|t: int| 0 <= t < j ==> entries[t].0 != key,
    ensures
        key_index(entries, key) == j,
{
    lemma_key_index(entries, key);
    assert(has_key(entries, key));
    let f = key_index(entries, key);
    if f < j {
        assert(entries[f].0 == key);
    }
}

/// A later assignment to a key already present replaces only that key's
/// value: every key keeps its position, every other pair is untouched, and
/// the key now carries the new value.
pub proof fn lemma_upsert_existing_keeps_order(
    entries: Seq<(Seq<char>, Seq<char>)>,
    key: Seq<char>,
    value: Seq<char>,
)
    requires
        has_key(entries, key),
    ensures
        upsert(entries, key, value).len() == entries.len(),
        forall|i: int| 0 <= i < entries.len() ==> upsert(entries, key, value)[i].0
            == entries[i].0,
        forall|i: int|
            0 <= i < entries.len() && i != key_index(entries, key) ==> upsert(
                entries,
                key,
                value,
            )[i] == entries[i],
        key_index(upsert(entries, key, value), key) == key_index(entries, key),
        lookup(upsert(entries, key, value), key) == value,
{
    lemma_key_index(entries, key);
    let j = key_index(entries, key);
    let updated = upsert(entries, key, value);
    assert(updated == entries.update(j, (key, value)));
    assert forall|t: int| 0 <= t < j implies updated[t].0 != key by {
        assert(updated[t] == entries[t]);
    }
    lemma_key_index_at(updated, key, j);
}

/// Relies on `indexmap::IndexMap::new`: a new map is empty.
#[verifier::external_body]
pub fn env_map_new() -> (m: IndexMap<String, String>)
    ensures
        env_entries(m) == Seq::<(Seq<char>, Seq<char>)>::empty(),
{
    IndexMap::new()
}

/// Relies on `indexmap::IndexMap::insert`: an equivalent key keeps its place
/// in the order and has its value updated; a new key is inserted last.
#[verifier::external_body]
pub fn env_map_insert(m: &mut IndexMap<String, String>, key: String, value: String)
    ensures
        env_entries(*final(m)) == upsert(env_entries(*old(m)), key@, value@),
{
    m.insert(key, value);
}

/// Relies on `indexmap::IndexMap::len`: the number of key-value pairs.
#[verifier::external_body]
pub fn env_map_len(m: &IndexMap<String, String>) -> (n: usize)
    ensures
        n == env_entries(*m).len(),
{
    m.len()
}

/// Relies on `indexmap::IndexMap::get`: the stored value for the key, if the
/// key is present.
#[verifier::external_body]
pub fn env_map_get<'a>(m: &'a IndexMap<String, String>, key: &str) -> (r: Option<&'a String>)
    ensures
        match r {
            Some(v) => has_key(env_entries(*m), key@) && v@ == lookup(env_entries(*m), key@),
            None => !has_key(env_entries(*m), key@),
        },
{
    m.get(key)
}

/// Relies on `indexmap::IndexMap::get_index`: the key-value pair at a
/// position in the order, if the position is in range.
#[verifier::external_body]
pub fn env_map_get_index<'a>(m: &'a IndexMap<String, String>, index: usize) -> (r: Option<
    (&'a String, &'a String),
>)
    ensures
        match r {
            Some(p) => index < env_entries(*m).len() && p.0@ == env_entries(*m)[index as int].0
                && p.1@ == env_entries(*m)[index as int].1,
            None => index >= env_entries(*m).len(),
        },
{
    m.get_index(index)
}

/// Relies on `indexmap::IndexMap`'s `Clone`: the copy holds the same pairs in
/// the same order.
#[verifier::external_body]
pub fn env_map_clone(m: &IndexMap<String, String>) -> (r: IndexMap<String, String>)
    ensures
        env_entries(r) == env_entries(*m),
{
    m.clone()
}

} // verus!
