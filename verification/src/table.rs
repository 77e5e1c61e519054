//! Association lists: sequences of `(key, value)` pairs with distinct keys,
//! used for the key maps and widget tables of the line editor.
use vstd::prelude::*;

verus! {

/// Whether some entry of `s` has key `k`.
pub open spec fn kv_has<K, V>(s: Seq<(K, V)>, k: K) -> bool {
    exists|i: int| 0 <= i < s.len() && (#[trigger] s[i]).0 == k
}

/// The position of the entry with key `k` (meaningful when `kv_has`).
pub open spec fn kv_index<K, V>(s: Seq<(K, V)>, k: K) -> int {
    choose|i: int| 0 <= i < s.len() && (#[trigger] s[i]).0 == k
}

/// The value stored under `k`, if any.
pub open spec fn kv_get<K, V>(s: Seq<(K, V)>, k: K) -> Option<V> {
    if kv_has(s, k) {
        Some(s[kv_index(s, k)].1)
    } else {
        None
    }
}

/// Stores `v` under `k`: replaces the entry with that key in place, or
/// appends a new entry.
pub open spec fn kv_put<K, V>(s: Seq<(K, V)>, k: K, v: V) -> Seq<(K, V)> {
    if kv_has(s, k) {
        s.update(kv_index(s, k), (k, v))
    } else {
        s.push((k, v))
    }
}

/// No two entries share a key.
pub open spec fn keys_distinct<K, V>(s: Seq<(K, V)>) -> bool {
    forall|i: int, j: int|
        0 <= i < s.len() && 0 <= j < s.len() && i != j ==> (#[trigger] s[i]).0 != (#[trigger] s[j]).0
}

pub proof fn lemma_kv_index<K, V>(s: Seq<(K, V)>, k: K, i: int)
    requires
        keys_distinct(s),
        0 <= i < s.len(),
        s[i].0 == k,
    ensures
        kv_has(s, k),
        kv_index(s, k) == i,
        kv_get(s, k) == Some(s[i].1),
{
    assert(0 <= i < s.len() && s[i].0 == k);
    let j = kv_index(s, k);
    if j != i {
        assert(s[j].0 == s[i].0);
    }
}

/// Storing under a key keeps keys distinct, makes the key map to the new
/// value and leaves every other key alone.
pub proof fn lemma_kv_put<K, V>(s: Seq<(K, V)>, k: K, v: V)
    requires
        keys_distinct(s),
    ensures
        keys_distinct(kv_put(s, k, v)),
        kv_get(kv_put(s, k, v), k) == Some(v),
        forall|k2: K| k2 != k ==> kv_get(kv_put(s, k, v), k2) == kv_get(s, k2),
{
    let t = kv_put(s, k, v);
    if kv_has(s, k) {
        let i = kv_index(s, k);
        assert(keys_distinct(t)) by {
            assert forall|a: int, b: int|
                0 <= a < t.len() && 0 <= b < t.len() && a != b implies (#[trigger] t[a]).0 != (
            #[trigger] t[b]).0 by {
                if a != i && b != i {
                    assert(t[a] == s[a] && t[b] == s[b]);
                } else if a == i {
                    assert(t[b] == s[b]);
                    assert(s[i].0 == k);
                } else {
                    assert(t[a] == s[a]);
                    assert(s[i].0 == k);
                }
            }
        }
        lemma_kv_index(t, k, i);
        assert forall|k2: K| k2 != k implies kv_get(t, k2) == kv_get(s, k2) by {
            if kv_has(s, k2) {
                let j = kv_index(s, k2);
                assert(j != i);
                assert(t[j] == s[j]);
                lemma_kv_index(t, k2, j);
            }
            if kv_has(t, k2) {
                let j = kv_index(t, k2);
                assert(j != i);
                assert(t[j] == s[j]);
                lemma_kv_index(s, k2, j);
            }
        }
    } else {
        assert(keys_distinct(t)) by {
            assert forall|a: int, b: int|
                0 <= a < t.len() && 0 <= b < t.len() && a != b implies (#[trigger] t[a]).0 != (
            #[trigger] t[b]).0 by {
                if a < s.len() && b < s.len() {
                    assert(t[a] == s[a] && t[b] == s[b]);
                } else if a == s.len() {
                    assert(t[b] == s[b]);
                } else {
                    assert(t[a] == s[a]);
                }
            }
        }
        lemma_kv_index(t, k, s.len() as int);
        assert forall|k2: K| k2 != k implies kv_get(t, k2) == kv_get(s, k2) by {
            if kv_has(s, k2) {
                let j = kv_index(s, k2);
                assert(t[j] == s[j]);
                lemma_kv_index(t, k2, j);
            }
            if kv_has(t, k2) {
                let j = kv_index(t, k2);
                assert(j != s.len());
                assert(t[j] == s[j]);
                lemma_kv_index(s, k2, j);
            }
        }
    }
}


/// One lookup after a store: the stored value for its key, the old lookup
/// for any other key.
pub proof fn lemma_kv_put_get<K, V>(s: Seq<(K, V)>, k: K, v: V, q: K)
    requires
        keys_distinct(s),
    ensures
        keys_distinct(kv_put(s, k, v)),
        kv_get(kv_put(s, k, v), q) == (if q == k {
            Some(v)
        } else {
            kv_get(s, q)
        }),
{
    lemma_kv_put(s, k, v);
}

} // verus!

verus! {

/// The table as a map.
pub open spec fn kv_map<K, V>(s: Seq<(K, V)>) -> Map<K, V> {
    Map::new(|k: K| kv_has(s, k), |k: K| s[kv_index(s, k)].1)
}


/// A table denotes the map `m` when every lookup agrees with `m`.
pub proof fn lemma_kv_map_ext<K, V>(t: Seq<(K, V)>, m: Map<K, V>)
    requires
        forall|k: K|
            #[trigger] kv_get(t, k) == (if m.contains_key(k) {
                Some(m[k])
            } else {
                None
            }),
    ensures
        kv_map(t) == m,
{
    assert forall|k: K| #[trigger] kv_map(t).contains_key(k) <==> m.contains_key(k) by {
        assert(kv_get(t, k) == (if m.contains_key(k) { Some(m[k]) } else { None }));
    }
    assert forall|k: K| kv_map(t).contains_key(k) implies #[trigger] kv_map(t)[k] == m[k] by {
        assert(kv_get(t, k) == (if m.contains_key(k) { Some(m[k]) } else { None }));
    }
    assert(kv_map(t) =~= m);
}

/// Inserting an entry with a new key anywhere in the table.
pub proof fn lemma_kv_insert_fresh<K, V>(s: Seq<(K, V)>, j: int, k: K, v: V)
    requires
        keys_distinct(s),
        !kv_has(s, k),
        0 <= j <= s.len(),
    ensures
        keys_distinct(s.insert(j, (k, v))),
        kv_map(s.insert(j, (k, v))) == kv_map(s).insert(k, v),
{
    let t = s.insert(j, (k, v));
    assert forall|a: int, b: int|
        0 <= a < t.len() && 0 <= b < t.len() && a != b implies (#[trigger] t[a]).0 != (
    #[trigger] t[b]).0 by {
        if a != j && b != j {
            let a2 = if a < j { a } else { a - 1 };
            let b2 = if b < j { b } else { b - 1 };
            assert(t[a] == s[a2] && t[b] == s[b2]);
        } else if a == j {
            let b2 = if b < j { b } else { b - 1 };
            assert(t[b] == s[b2]);
        } else {
            let a2 = if a < j { a } else { a - 1 };
            assert(t[a] == s[a2]);
        }
    }
    lemma_kv_index(t, k, j);
    assert forall|k2: K| k2 != k implies kv_get(t, k2) == kv_get(s, k2) by {
        if kv_has(s, k2) {
            let i = kv_index(s, k2);
            let i2 = if i < j { i } else { i + 1 };
            assert(t[i2] == s[i]);
            lemma_kv_index(t, k2, i2);
        }
        if kv_has(t, k2) {
            let i = kv_index(t, k2);
            assert(i != j);
            let i2 = if i < j { i } else { i - 1 };
            assert(t[i] == s[i2]);
            lemma_kv_index(s, k2, i2);
        }
    }
    let m = kv_map(s).insert(k, v);
    assert forall|k2: K| #[trigger] kv_get(t, k2) == (if m.contains_key(k2) {
        Some(m[k2])
    } else {
        None
    }) by {
        if k2 != k {
            assert(kv_get(t, k2) == kv_get(s, k2));
        }
    }
    lemma_kv_map_ext(t, m);
}

/// Removing the entry at position `j`.
pub proof fn lemma_kv_remove<K, V>(s: Seq<(K, V)>, j: int)
    requires
        keys_distinct(s),
        0 <= j < s.len(),
    ensures
        keys_distinct(s.remove(j)),
        kv_map(s.remove(j)) == kv_map(s).remove(s[j].0),
{
    let t = s.remove(j);
    let k = s[j].0;
    assert forall|a: int, b: int|
        0 <= a < t.len() && 0 <= b < t.len() && a != b implies (#[trigger] t[a]).0 != (
    #[trigger] t[b]).0 by {
        let a2 = if a < j { a } else { a + 1 };
        let b2 = if b < j { b } else { b + 1 };
        assert(t[a] == s[a2] && t[b] == s[b2]);
    }
    assert forall|k2: K| k2 != k implies kv_get(t, k2) == kv_get(s, k2) by {
        if kv_has(s, k2) {
            let i = kv_index(s, k2);
            assert(i != j);
            let i2 = if i < j { i } else { i - 1 };
            assert(t[i2] == s[i]);
            lemma_kv_index(t, k2, i2);
        }
        if kv_has(t, k2) {
            let i = kv_index(t, k2);
            let i2 = if i < j { i } else { i + 1 };
            assert(t[i] == s[i2]);
            lemma_kv_index(s, k2, i2);
        }
    }
    if kv_has(t, k) {
        let i = kv_index(t, k);
        let i2 = if i < j { i } else { i + 1 };
        assert(t[i] == s[i2]);
        assert(false);
    }
    let m = kv_map(s).remove(k);
    assert forall|k2: K| #[trigger] kv_get(t, k2) == (if m.contains_key(k2) {
        Some(m[k2])
    } else {
        None
    }) by {
        if k2 != k {
            assert(kv_get(t, k2) == kv_get(s, k2));
        }
    }
    lemma_kv_map_ext(t, m);
}

/// Replacing the value at position `j` (where key `k` lives).
pub proof fn lemma_kv_update<K, V>(s: Seq<(K, V)>, j: int, v: V)
    requires
        keys_distinct(s),
        0 <= j < s.len(),
    ensures
        keys_distinct(s.update(j, (s[j].0, v))),
        kv_map(s.update(j, (s[j].0, v))) == kv_map(s).insert(s[j].0, v),
{
    lemma_kv_index(s, s[j].0, j);
    lemma_kv_put(s, s[j].0, v);
    let t = kv_put(s, s[j].0, v);
    assert(t == s.update(j, (s[j].0, v)));
    let m = kv_map(s).insert(s[j].0, v);
    assert forall|k2: K| #[trigger] kv_get(t, k2) == (if m.contains_key(k2) {
        Some(m[k2])
    } else {
        None
    }) by {
        if k2 != s[j].0 {
            assert(kv_get(t, k2) == kv_get(s, k2));
        }
    }
    lemma_kv_map_ext(t, m);
}


/// A table with distinct keys has exactly as many keys as entries.
pub proof fn lemma_kv_map_len<K, V>(s: Seq<(K, V)>)
    requires
        keys_distinct(s),
    ensures
        kv_map(s).dom().finite(),
        kv_map(s).dom().len() == s.len(),
    decreases s.len(),
{
    if s.len() == 0 {
        assert(kv_map(s).dom() =~= Set::<K>::empty());
    } else {
        let t = s.drop_last();
        let last = s.last().0;
        assert(keys_distinct(t)) by {
            assert forall|i: int, j: int|
                0 <= i < t.len() && 0 <= j < t.len() && i != j implies (#[trigger] t[i]).0 != (
            #[trigger] t[j]).0 by {
                assert(t[i] == s[i] && t[j] == s[j]);
            }
        }
        lemma_kv_map_len(t);
        assert forall|k: K| #[trigger] kv_map(s).dom().contains(k) <==> kv_map(t).dom().insert(
            last,
        ).contains(k) by {
            if kv_has(s, k) {
                let i = choose|i: int| 0 <= i < s.len() && (#[trigger] s[i]).0 == k;
                if i < t.len() {
                    assert(t[i] == s[i]);
                    assert(kv_has(t, k));
                }
            }
            if kv_has(t, k) {
                let i = choose|i: int| 0 <= i < t.len() && (#[trigger] t[i]).0 == k;
                assert(t[i] == s[i]);
                assert(kv_has(s, k));
            }
            if k == last {
                assert(s[s.len() - 1].0 == k);
                assert(kv_has(s, k));
            }
        }
        assert(kv_map(s).dom() =~= kv_map(t).dom().insert(last));
        assert(!kv_map(t).dom().contains(last)) by {
            if kv_has(t, last) {
                let i = choose|i: int| 0 <= i < t.len() && (#[trigger] t[i]).0 == last;
                assert(t[i] == s[i]);
                assert(s[i].0 == s[s.len() - 1].0);
            }
        }
    }
}

} // verus!
