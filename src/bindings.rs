//! A binding collection is a vector of `(key, value)` pairs that holds at
//! most one pair per key. Its order carries no meaning: it stands for the
//! finite map from each key present to the value paired with it.

use vstd::prelude::*;

verus! {

/// No two pairs of `s` share a key.
pub open spec fn unique_keys<K, V>(s: Seq<(K, V)>) -> bool {
    forall|i: int, j: int|
        0 <= i < s.len() && 0 <= j < s.len() && #[trigger] s[i].0 == #[trigger] s[j].0 ==> i == j
}

/// Some pair of `s` has the key `k`.
pub open spec fn has_key<K, V>(s: Seq<(K, V)>, k: K) -> bool {
    exists|i: int| 0 <= i < s.len() && #[trigger] s[i].0 == k
}

/// The map that the pairs of `s` stand for: each key present, to the value
/// of a pair with that key (the only one, when keys are unique).
pub open spec fn key_map<K, V>(s: Seq<(K, V)>) -> Map<K, V> {
    Map::new(
        |k: K| has_key(s, k),
        |k: K| s[choose|i: int| 0 <= i < s.len() && #[trigger] s[i].0 == k].1,
    )
}

/// Binds `k` to `v` unless `k` is bound already: the first binding wins.
pub open spec fn bind_first<K, V>(m: Map<K, V>, k: K, v: V) -> Map<K, V> {
    if m.contains_key(k) {
        m
    } else {
        m.insert(k, v)
    }
}

/// With unique keys, the map sends the key of each pair to that pair's value.
pub proof fn lemma_key_map_entry<K, V>(s: Seq<(K, V)>, m: int)
    requires
        unique_keys(s),
        0 <= m < s.len(),
    ensures
        key_map(s).contains_key(s[m].0),
        key_map(s)[s[m].0] == s[m].1,
{
    let k = s[m].0;
    assert(has_key(s, k));
    let i = choose|i: int| 0 <= i < s.len() && #[trigger] s[i].0 == k;
    assert(s[i].0 == s[m].0);
}

/// The empty vector stands for the empty map.
pub proof fn lemma_key_map_empty<K, V>(s: Seq<(K, V)>)
    requires
        s.len() == 0,
    ensures
        unique_keys(s),
        key_map(s) == Map::<K, V>::empty(),
{
    assert(key_map(s) =~= Map::<K, V>::empty());
}

/// Appending a pair with a new key keeps keys unique and adds that entry.
pub proof fn lemma_key_map_push<K, V>(s: Seq<(K, V)>, k: K, v: V)
    requires
        unique_keys(s),
        !has_key(s, k),
    ensures
        unique_keys(s.push((k, v))),
        key_map(s.push((k, v))) == key_map(s).insert(k, v),
{
    let t = s.push((k, v));
    assert forall|i: int, j: int|
        0 <= i < t.len() && 0 <= j < t.len() && #[trigger] t[i].0 == #[trigger] t[j].0 implies i == j by {
        if i < s.len() && j == s.len() {
            assert(s[i].0 == k);
        } else if j < s.len() && i == s.len() {
            assert(s[j].0 == k);
        } else if i < s.len() && j < s.len() {
            assert(s[i].0 == s[j].0);
        }
    }
    assert forall|x: K| #[trigger] key_map(t).contains_key(x) <==> key_map(s).insert(k, v).contains_key(x) by {
        if has_key(s, x) {
            let i = choose|i: int| 0 <= i < s.len() && #[trigger] s[i].0 == x;
            assert(t[i].0 == x);
        }
        if has_key(t, x) && x != k {
            let i = choose|i: int| 0 <= i < t.len() && #[trigger] t[i].0 == x;
            assert(s[i].0 == x);
        }
        if x == k {
            assert(t[s.len() as int].0 == k);
        }
    }
    assert forall|x: K| #[trigger] key_map(t).contains_key(x) implies key_map(t)[x] == key_map(s).insert(k, v)[x] by {
        let i = choose|i: int| 0 <= i < t.len() && #[trigger] t[i].0 == x;
        lemma_key_map_entry(t, i);
        if i < s.len() {
            assert(s[i] == t[i]);
            lemma_key_map_entry(s, i);
        }
    }
    assert(key_map(t) =~= key_map(s).insert(k, v));
}

/// Replacing the value of the pair at `m` keeps keys unique and changes that
/// entry alone.
pub proof fn lemma_key_map_update<K, V>(s: Seq<(K, V)>, m: int, v: V)
    requires
        unique_keys(s),
        0 <= m < s.len(),
    ensures
        unique_keys(s.update(m, (s[m].0, v))),
        key_map(s.update(m, (s[m].0, v))) == key_map(s).insert(s[m].0, v),
{
    let k = s[m].0;
    let t = s.update(m, (k, v));
    assert forall|i: int, j: int|
        0 <= i < t.len() && 0 <= j < t.len() && #[trigger] t[i].0 == #[trigger] t[j].0 implies i == j by {
        assert(t[i].0 == s[i].0 && t[j].0 == s[j].0);
    }
    assert forall|x: K| #[trigger] key_map(t).contains_key(x) <==> key_map(s).insert(k, v).contains_key(x) by {
        if has_key(s, x) {
            let i = choose|i: int| 0 <= i < s.len() && #[trigger] s[i].0 == x;
            assert(t[i].0 == x);
        }
        if has_key(t, x) {
            let i = choose|i: int| 0 <= i < t.len() && #[trigger] t[i].0 == x;
            assert(s[i].0 == x);
        }
        lemma_key_map_entry(s, m);
    }
    assert forall|x: K| #[trigger] key_map(t).contains_key(x) implies key_map(t)[x] == key_map(s).insert(k, v)[x] by {
        let i = choose|i: int| 0 <= i < t.len() && #[trigger] t[i].0 == x;
        lemma_key_map_entry(t, i);
        if i != m {
            assert(s[i] == t[i]);
            lemma_key_map_entry(s, i);
        }
    }
    assert(key_map(t) =~= key_map(s).insert(k, v));
}

/// Moving the last pair into position `m` and dropping the last slot keeps
/// keys unique and removes exactly the entry of the pair that stood at `m`.
pub proof fn lemma_key_map_swap_remove<K, V>(s: Seq<(K, V)>, m: int)
    requires
        unique_keys(s),
        0 <= m < s.len(),
    ensures
        unique_keys(s.update(m, s.last()).drop_last()),
        key_map(s.update(m, s.last()).drop_last()) == key_map(s).remove(s[m].0),
{
    let k = s[m].0;
    let n = s.len() - 1;
    let t = s.update(m, s.last()).drop_last();
    // position in `s` of the pair that now stands at `i` in `t`
    assert forall|i: int| 0 <= i < t.len() implies #[trigger] t[i] == s[if i == m { n } else { i }] by {}
    assert forall|i: int, j: int|
        0 <= i < t.len() && 0 <= j < t.len() && #[trigger] t[i].0 == #[trigger] t[j].0 implies i == j by {
        let si = if i == m { n } else { i };
        let sj = if j == m { n } else { j };
        assert(t[i] == s[si] && t[j] == s[sj]);
        assert(s[si].0 == s[sj].0);
    }
    assert forall|x: K| #[trigger] key_map(t).contains_key(x) <==> key_map(s).remove(k).contains_key(x) by {
        if has_key(s, x) && x != k {
            let i = choose|i: int| 0 <= i < s.len() && #[trigger] s[i].0 == x;
            assert(i != m);
            if i == n {
                assert(t[m] == s[n]);
                assert(t[m].0 == x);
            } else {
                assert(t[i] == s[i]);
                assert(t[i].0 == x);
            }
        }
        if has_key(t, x) {
            let i = choose|i: int| 0 <= i < t.len() && #[trigger] t[i].0 == x;
            let si = if i == m { n } else { i };
            assert(t[i] == s[si]);
            assert(s[si].0 == x);
            assert(si != m);
            assert(x != k);
        }
    }
    assert forall|x: K| #[trigger] key_map(t).contains_key(x) implies key_map(t)[x] == key_map(s).remove(k)[x] by {
        let i = choose|i: int| 0 <= i < t.len() && #[trigger] t[i].0 == x;
        let si = if i == m { n } else { i };
        assert(t[i] == s[si]);
        lemma_key_map_entry(t, i);
        lemma_key_map_entry(s, si);
    }
    assert(key_map(t) =~= key_map(s).remove(k));
}

/// Binding a key a second time changes nothing: the first binding wins,
/// so a key bound for the first time to `v1` stays bound to `v1` whatever
/// the second call asks for.
pub proof fn lemma_bind_first_wins<K, V>(m: Map<K, V>, k: K, v1: V, v2: V)
    ensures
        bind_first(bind_first(m, k, v1), k, v2) == bind_first(m, k, v1),
        bind_first(bind_first(m, k, v1), k, v2).contains_key(k),
        !m.contains_key(k) ==> bind_first(bind_first(m, k, v1), k, v2)[k] == v1,
{
}

/// Removing a key that is not bound leaves the map as it was.
pub proof fn lemma_remove_absent<K, V>(m: Map<K, V>, k: K)
    requires
        !m.contains_key(k),
    ensures
        m.remove(k) == m,
{
    assert(m.remove(k) =~= m);
}

} // verus!
