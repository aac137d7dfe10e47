//! Association lists as maps.
//!
//! The engine's tables are short vectors that are searched from the front. Their
//! meaning is the map that pairs the i-th key with the i-th value, for keys that
//! are all different.

use vstd::prelude::*;

verus! {

/// The map that takes `keys[i]` to `vals[i]`.
pub open spec fn paired<K, V>(keys: Seq<K>, vals: Seq<V>) -> Map<K, V> {
    Map::new(|k: K| keys.contains(k), |k: K| vals[keys.index_of(k)])
}

/// Each position of a list without repeated keys is an entry of its map.
pub proof fn lemma_paired_at<K, V>(keys: Seq<K>, vals: Seq<V>, i: int)
    requires
        keys.no_duplicates(),
        keys.len() == vals.len(),
        0 <= i < keys.len(),
    ensures
        paired(keys, vals).contains_key(keys[i]),
        paired(keys, vals)[keys[i]] == vals[i],
{
    assert(keys.contains(keys[i]));
    let j = keys.index_of(keys[i]);
    assert(0 <= j < keys.len() && keys[j] == keys[i]);
}

/// Appending a new key inserts it into the map.
pub proof fn lemma_paired_push<K, V>(keys: Seq<K>, vals: Seq<V>, k: K, v: V)
    requires
        keys.no_duplicates(),
        keys.len() == vals.len(),
        !keys.contains(k),
    ensures
        keys.push(k).no_duplicates(),
        paired(keys.push(k), vals.push(v)) == paired(keys, vals).insert(k, v),
{
    let keys2 = keys.push(k);
    let vals2 = vals.push(v);
    assert(keys2.no_duplicates()) by {
        assert forall|i: int, j: int| 0 <= i < keys2.len() && 0 <= j < keys2.len() && i != j implies keys2[i] != keys2[j] by {
            if i < keys.len() {
                assert(keys.contains(keys[i]));
            }
            if j < keys.len() {
                assert(keys.contains(keys[j]));
            }
        }
    }
    let left = paired(keys2, vals2);
    let right = paired(keys, vals).insert(k, v);
    assert forall|x: K| left.contains_key(x) <==> right.contains_key(x) by {
        if keys2.contains(x) {
            let i = choose|i: int| 0 <= i < keys2.len() && keys2[i] == x;
            if i < keys.len() {
                assert(keys[i] == x);
            }
        }
        if keys.contains(x) {
            let i = choose|i: int| 0 <= i < keys.len() && keys[i] == x;
            assert(keys2[i] == x);
        }
        if x == k {
            assert(keys2[keys.len() as int] == x);
        }
    }
    assert forall|x: K| left.contains_key(x) implies left[x] == right[x] by {
        let i = keys2.index_of(x);
        assert(0 <= i < keys2.len() && keys2[i] == x);
        lemma_paired_at(keys2, vals2, i);
        if i < keys.len() {
            lemma_paired_at(keys, vals, i);
        }
    }
    assert(left =~= right);
}

/// Dropping a position removes its key from the map.
pub proof fn lemma_paired_remove<K, V>(keys: Seq<K>, vals: Seq<V>, i: int)
    requires
        keys.no_duplicates(),
        keys.len() == vals.len(),
        0 <= i < keys.len(),
    ensures
        keys.remove(i).no_duplicates(),
        paired(keys.remove(i), vals.remove(i)) == paired(keys, vals).remove(keys[i]),
{
    let keys2 = keys.remove(i);
    let vals2 = vals.remove(i);
    assert(keys2.no_duplicates());
    let left = paired(keys2, vals2);
    let right = paired(keys, vals).remove(keys[i]);
    assert forall|x: K| left.contains_key(x) <==> right.contains_key(x) by {
        if keys2.contains(x) {
            let j = choose|j: int| 0 <= j < keys2.len() && keys2[j] == x;
            if j < i {
                assert(keys[j] == x);
            } else {
                assert(keys[j + 1] == x);
            }
        }
        if keys.contains(x) && x != keys[i] {
            let j = choose|j: int| 0 <= j < keys.len() && keys[j] == x;
            if j < i {
                assert(keys2[j] == x);
            } else {
                assert(keys2[j - 1] == x);
            }
        }
    }
    assert forall|x: K| left.contains_key(x) implies left[x] == right[x] by {
        let j = keys2.index_of(x);
        assert(0 <= j < keys2.len() && keys2[j] == x);
        lemma_paired_at(keys2, vals2, j);
        if j < i {
            lemma_paired_at(keys, vals, j);
        } else {
            lemma_paired_at(keys, vals, j + 1);
        }
    }
    assert(left =~= right);
}

/// Replacing the value at a position replaces the value of its key.
pub proof fn lemma_paired_update<K, V>(keys: Seq<K>, vals: Seq<V>, i: int, v: V)
    requires
        keys.no_duplicates(),
        keys.len() == vals.len(),
        0 <= i < keys.len(),
    ensures
        paired(keys, vals.update(i, v)) == paired(keys, vals).insert(keys[i], v),
{
    let vals2 = vals.update(i, v);
    let left = paired(keys, vals2);
    let right = paired(keys, vals).insert(keys[i], v);
    assert forall|x: K| left.contains_key(x) <==> right.contains_key(x) by {
        assert(keys.contains(keys[i]));
    }
    assert forall|x: K| left.contains_key(x) implies left[x] == right[x] by {
        let j = keys.index_of(x);
        assert(0 <= j < keys.len() && keys[j] == x);
        lemma_paired_at(keys, vals2, j);
        lemma_paired_at(keys, vals, j);
    }
    assert(left =~= right);
}

} // verus!
