//! Rows held in a sequence with unique keys, seen as a map from key to row.

use vstd::prelude::*;

verus! {

/// The map from key to row that a sequence of rows stands for; a later row
/// wins over an earlier one with the same key.
pub open spec fn keyed<V, K>(s: Seq<V>, key: spec_fn(V) -> K) -> Map<K, V>
    decreases s.len(),
{
    if s.len() == 0 {
        Map::empty()
    } else {
        keyed(s.drop_last(), key).insert(key(s.last()), s.last())
    }
}

/// No two rows share a key.
pub open spec fn unique<V, K>(s: Seq<V>, key: spec_fn(V) -> K) -> bool {
    forall|i: int, j: int|
        0 <= i < s.len() && 0 <= j < s.len() && i != j ==> key(s[i]) != key(s[j])
}

pub proof fn lemma_keyed_dom<V, K>(s: Seq<V>, key: spec_fn(V) -> K, k: K)
    ensures
        keyed(s, key).contains_key(k) <==> exists|i: int| 0 <= i < s.len() && key(s[i]) == k,
    decreases s.len(),
{
    if s.len() > 0 {
        lemma_keyed_dom(s.drop_last(), key, k);
        if keyed(s, key).contains_key(k) && key(s.last()) != k {
            let i = choose|i: int| 0 <= i < s.len() - 1 && key(s.drop_last()[i]) == k;
            assert(key(s[i]) == k);
        }
        if exists|i: int| 0 <= i < s.len() && key(s[i]) == k {
            let i = choose|i: int| 0 <= i < s.len() && key(s[i]) == k;
            if i < s.len() - 1 {
                assert(key(s.drop_last()[i]) == k);
            }
        }
    }
}

pub proof fn lemma_keyed_at<V, K>(s: Seq<V>, key: spec_fn(V) -> K, i: int)
    requires
        unique(s, key),
        0 <= i < s.len(),
    ensures
        keyed(s, key).contains_key(key(s[i])),
        keyed(s, key)[key(s[i])] == s[i],
    decreases s.len(),
{
    if i < s.len() - 1 {
        assert(unique(s.drop_last(), key));
        assert(s.drop_last()[i] == s[i]);
        lemma_keyed_at(s.drop_last(), key, i);
    }
}

pub proof fn lemma_keyed_update<V, K>(s: Seq<V>, key: spec_fn(V) -> K, i: int, v: V)
    requires
        unique(s, key),
        0 <= i < s.len(),
        key(v) == key(s[i]),
    ensures
        unique(s.update(i, v), key),
        keyed(s.update(i, v), key) == keyed(s, key).insert(key(v), v),
    decreases s.len(),
{
    let t = s.update(i, v);
    assert(unique(t, key)) by {
        assert forall|a: int, b: int| 0 <= a < t.len() && 0 <= b < t.len() && a != b implies key(
            t[a],
        ) != key(t[b]) by {
            assert(key(t[a]) == key(s[a]));
            assert(key(t[b]) == key(s[b]));
        }
    }
    if i == s.len() - 1 {
        assert(t.drop_last() =~= s.drop_last());
        assert(keyed(t, key) =~= keyed(s, key).insert(key(v), v));
    } else {
        assert(unique(s.drop_last(), key));
        lemma_keyed_update(s.drop_last(), key, i, v);
        assert(t.drop_last() =~= s.drop_last().update(i, v));
        assert(key(s.last()) != key(v));
        assert(keyed(t, key) =~= keyed(s, key).insert(key(v), v));
    }
}

pub proof fn lemma_keyed_push<V, K>(s: Seq<V>, key: spec_fn(V) -> K, v: V)
    requires
        unique(s, key),
        !keyed(s, key).contains_key(key(v)),
    ensures
        unique(s.push(v), key),
        keyed(s.push(v), key) == keyed(s, key).insert(key(v), v),
{
    let t = s.push(v);
    assert(t.drop_last() =~= s);
    assert forall|a: int, b: int| 0 <= a < t.len() && 0 <= b < t.len() && a != b implies key(t[a])
        != key(t[b]) by {
        if a == s.len() {
            lemma_keyed_dom(s, key, key(v));
            assert(t[b] == s[b]);
        } else if b == s.len() {
            lemma_keyed_dom(s, key, key(v));
            assert(t[a] == s[a]);
        } else {
            assert(t[a] == s[a] && t[b] == s[b]);
        }
    }
}

/// One step of a loop that keeps the rows whose key passes `p`.
pub proof fn lemma_keyed_filter_step<V, K>(s: Seq<V>, key: spec_fn(V) -> K, p: spec_fn(K) -> bool, i: int)
    requires
        unique(s, key),
        0 <= i < s.len(),
    ensures
        !keyed(s.take(i), key).contains_key(key(s[i])),
        keyed(s.take(i + 1), key).filter_keys(p) == if p(key(s[i])) {
            keyed(s.take(i), key).filter_keys(p).insert(key(s[i]), s[i])
        } else {
            keyed(s.take(i), key).filter_keys(p)
        },
{
    assert(s.take(i + 1).drop_last() =~= s.take(i));
    lemma_keyed_dom(s.take(i), key, key(s[i]));
    if keyed(s.take(i), key).contains_key(key(s[i])) {
        let j = choose|j: int| 0 <= j < s.take(i).len() && key(s.take(i)[j]) == key(s[i]);
        assert(key(s[j]) == key(s[i]));
    }
    assert(keyed(s.take(i + 1), key).filter_keys(p) =~= if p(key(s[i])) {
        keyed(s.take(i), key).filter_keys(p).insert(key(s[i]), s[i])
    } else {
        keyed(s.take(i), key).filter_keys(p)
    });
}

/// Keeping rows of a sequence with unique keys keeps the keys unique.
pub proof fn lemma_unique_push_filtered<V, K>(
    out: Seq<V>,
    s: Seq<V>,
    key: spec_fn(V) -> K,
    p: spec_fn(K) -> bool,
    i: int,
)
    requires
        unique(s, key),
        unique(out, key),
        0 <= i < s.len(),
        keyed(out, key) == keyed(s.take(i), key).filter_keys(p),
    ensures
        unique(out.push(s[i]), key),
        keyed(out.push(s[i]), key) == keyed(out, key).insert(key(s[i]), s[i]),
{
    lemma_keyed_filter_step(s, key, p, i);
    assert(!keyed(out, key).contains_key(key(s[i])));
    lemma_keyed_push(out, key, s[i]);
}

} // verus!
