//! Keyed tables held in vectors: the map a vector of entries stands for when
//! no key occurs twice, and how that map changes when entries are added or
//! removed.
use vstd::prelude::*;

verus! {

/// The map from keys to values that a table of entries stands for; a later
/// entry wins over an earlier one with the same key.
pub open spec fn table_map<E, K, V>(s: Seq<E>, key: spec_fn(E) -> K, val: spec_fn(E) -> V) -> Map<K, V>
    decreases s.len(),
{
    if s.len() == 0 {
        Map::empty()
    } else {
        table_map(s.drop_last(), key, val).insert(key(s.last()), val(s.last()))
    }
}

/// No key occurs twice in the table.
pub open spec fn distinct_keys<E, K>(s: Seq<E>, key: spec_fn(E) -> K) -> bool {
    forall|i: int, j: int| 0 <= i < j < s.len() ==> key(#[trigger] s[i]) != key(#[trigger] s[j])
}

/// A key is in the map exactly when some entry has it.
pub proof fn lemma_table_dom<E, K, V>(s: Seq<E>, key: spec_fn(E) -> K, val: spec_fn(E) -> V, k: K)
    ensures
        table_map(s, key, val).dom().contains(k) <==> exists|i: int| 0 <= i < s.len() && key(#[trigger] s[i]) == k,
    decreases s.len(),
{
    if s.len() > 0 {
        let d = s.drop_last();
        lemma_table_dom(d, key, val, k);
        if table_map(s, key, val).dom().contains(k) {
            if key(s.last()) == k {
                assert(key(s[s.len() - 1]) == k);
            } else {
                let i = choose|i: int| 0 <= i < d.len() && key(#[trigger] d[i]) == k;
                assert(s[i] == d[i]);
            }
        } else {
            assert forall|i: int| 0 <= i < s.len() implies key(#[trigger] s[i]) != k by {
                if i < d.len() {
                    assert(s[i] == d[i]);
                }
            }
        }
    }
}

/// Dropping the last entry keeps the keys distinct, and the last key is not among the others.
pub proof fn lemma_table_drop_last<E, K, V>(s: Seq<E>, key: spec_fn(E) -> K, val: spec_fn(E) -> V)
    requires
        distinct_keys(s, key),
        s.len() > 0,
    ensures
        distinct_keys(s.drop_last(), key),
        !table_map(s.drop_last(), key, val).dom().contains(key(s.last())),
{
    let d = s.drop_last();
    assert forall|a: int, b: int| 0 <= a < b < d.len() implies key(#[trigger] d[a]) != key(#[trigger] d[b]) by {
        assert(d[a] == s[a] && d[b] == s[b]);
    }
    lemma_table_dom(d, key, val, key(s.last()));
    assert forall|i: int| 0 <= i < d.len() implies key(#[trigger] d[i]) != key(s.last()) by {
        assert(d[i] == s[i]);
        assert(s.last() == s[s.len() - 1]);
    }
}

/// The entry at `i` is what the map gives for its key.
pub proof fn lemma_table_at<E, K, V>(s: Seq<E>, key: spec_fn(E) -> K, val: spec_fn(E) -> V, i: int)
    requires
        distinct_keys(s, key),
        0 <= i < s.len(),
    ensures
        table_map(s, key, val).dom().contains(key(s[i])),
        table_map(s, key, val)[key(s[i])] == val(s[i]),
    decreases s.len(),
{
    if i < s.len() - 1 {
        let d = s.drop_last();
        assert(d[i] == s[i]);
        lemma_table_drop_last(s, key, val);
        lemma_table_at(d, key, val, i);
        assert(key(s[i]) != key(s[s.len() - 1]));
    }
}

/// The map has one key per entry.
pub proof fn lemma_table_len<E, K, V>(s: Seq<E>, key: spec_fn(E) -> K, val: spec_fn(E) -> V)
    requires
        distinct_keys(s, key),
    ensures
        table_map(s, key, val).dom().finite(),
        table_map(s, key, val).len() == s.len(),
    decreases s.len(),
{
    if s.len() > 0 {
        lemma_table_drop_last(s, key, val);
        lemma_table_len(s.drop_last(), key, val);
    }
}

/// Removing the entry at `i` removes its key from the map.
pub proof fn lemma_table_remove<E, K, V>(s: Seq<E>, key: spec_fn(E) -> K, val: spec_fn(E) -> V, i: int)
    requires
        distinct_keys(s, key),
        0 <= i < s.len(),
    ensures
        distinct_keys(s.remove(i), key),
        table_map(s.remove(i), key, val) == table_map(s, key, val).remove(key(s[i])),
    decreases s.len(),
{
    let r = s.remove(i);
    assert forall|a: int, b: int| 0 <= a < b < r.len() implies key(#[trigger] r[a]) != key(#[trigger] r[b]) by {
        let a2 = if a < i { a } else { a + 1 };
        let b2 = if b < i { b } else { b + 1 };
        assert(r[a] == s[a2] && r[b] == s[b2]);
    }
    lemma_table_drop_last(s, key, val);
    let d = s.drop_last();
    if i == s.len() - 1 {
        assert(r =~= d);
        assert(table_map(s, key, val).remove(key(s[i])) =~= table_map(d, key, val));
    } else {
        assert(d[i] == s[i]);
        lemma_table_remove(d, key, val, i);
        assert(r =~= d.remove(i).push(s.last()));
        assert(r.drop_last() =~= d.remove(i));
        assert(r.last() == s.last());
        assert(key(s[i]) != key(s[s.len() - 1]));
        assert(table_map(r, key, val) =~= table_map(s, key, val).remove(key(s[i])));
    }
}

/// Appending an entry with a new key adds that key to the map.
pub proof fn lemma_table_push<E, K, V>(s: Seq<E>, key: spec_fn(E) -> K, val: spec_fn(E) -> V, e: E)
    requires
        distinct_keys(s, key),
        !table_map(s, key, val).dom().contains(key(e)),
    ensures
        distinct_keys(s.push(e), key),
        table_map(s.push(e), key, val) == table_map(s, key, val).insert(key(e), val(e)),
{
    let t = s.push(e);
    assert(t.drop_last() =~= s);
    lemma_table_dom(s, key, val, key(e));
    assert forall|a: int, b: int| 0 <= a < b < t.len() implies key(#[trigger] t[a]) != key(#[trigger] t[b]) by {
        assert(t[a] == s[a]);
        if b < s.len() {
            assert(t[b] == s[b]);
        }
    }
}

} // verus!
