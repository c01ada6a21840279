//! Maps read off sequences whose entries carry unique keys.
use vstd::prelude::*;

verus! {

/// Some entry of `s` has key `k`.
pub open spec fn has_key<T>(s: Seq<T>, key: spec_fn(T) -> Seq<char>, k: Seq<char>) -> bool {
    exists|i: int| 0 <= i < s.len() && #[trigger] key(s[i]) == k
}

/// No two entries of `s` share a key.
pub open spec fn unique_keys<T>(s: Seq<T>, key: spec_fn(T) -> Seq<char>) -> bool {
    forall|i: int, j: int|
        0 <= i < s.len() && 0 <= j < s.len() && i != j ==> #[trigger] key(s[i]) != #[trigger] key(
            s[j],
        )
}

/// The map from each key of `s` to the value of the entry that carries it.
pub open spec fn keyed<T, V>(
    s: Seq<T>,
    key: spec_fn(T) -> Seq<char>,
    val: spec_fn(T) -> V,
) -> Map<Seq<char>, V> {
    Map::new(
        |k: Seq<char>| has_key(s, key, k),
        |k: Seq<char>| val(s[choose|i: int| 0 <= i < s.len() && #[trigger] key(s[i]) == k]),
    )
}

/// The entry at `i` is what the map holds under its key.
pub proof fn lemma_keyed_at<T, V>(
    s: Seq<T>,
    key: spec_fn(T) -> Seq<char>,
    val: spec_fn(T) -> V,
    i: int,
)
    requires
        unique_keys(s, key),
        0 <= i < s.len(),
    ensures
        keyed(s, key, val).contains_key(key(s[i])),
        keyed(s, key, val)[key(s[i])] == val(s[i]),
{
    let k = key(s[i]);
    assert(has_key(s, key, k));
    let j = choose|j: int| 0 <= j < s.len() && #[trigger] key(s[j]) == k;
    assert(j == i);
}

/// The sequence without entries gives the empty map.
pub proof fn lemma_keyed_empty<T, V>(key: spec_fn(T) -> Seq<char>, val: spec_fn(T) -> V)
    ensures
        unique_keys(Seq::<T>::empty(), key),
        keyed(Seq::<T>::empty(), key, val) == Map::<Seq<char>, V>::empty(),
{
    assert(keyed(Seq::<T>::empty(), key, val) =~= Map::<Seq<char>, V>::empty());
}

/// Appending an entry with a new key adds that key to the map.
pub proof fn lemma_keyed_push<T, V>(
    s: Seq<T>,
    key: spec_fn(T) -> Seq<char>,
    val: spec_fn(T) -> V,
    x: T,
)
    requires
        unique_keys(s, key),
        !has_key(s, key, key(x)),
    ensures
        unique_keys(s.push(x), key),
        keyed(s.push(x), key, val) == keyed(s, key, val).insert(key(x), val(x)),
{
    let t = s.push(x);
    assert forall|i: int, j: int|
        0 <= i < t.len() && 0 <= j < t.len() && i != j implies #[trigger] key(t[i])
        != #[trigger] key(t[j]) by {
        if i < s.len() && j < s.len() {
            assert(t[i] == s[i] && t[j] == s[j]);
        } else if i < s.len() {
            assert(t[i] == s[i]);
        } else {
            assert(t[j] == s[j]);
        }
    }
    let a = keyed(t, key, val);
    let b = keyed(s, key, val).insert(key(x), val(x));
    assert forall|k: Seq<char>| a.contains_key(k) <==> b.contains_key(k) by {
        if has_key(s, key, k) {
            let i = choose|i: int| 0 <= i < s.len() && #[trigger] key(s[i]) == k;
            assert(t[i] == s[i]);
        }
        if k == key(x) {
            assert(t[s.len() as int] == x);
        }
        if has_key(t, key, k) && k != key(x) {
            let i = choose|i: int| 0 <= i < t.len() && #[trigger] key(t[i]) == k;
            assert(i < s.len());
            assert(t[i] == s[i]);
        }
    }
    assert forall|k: Seq<char>| #[trigger] a.contains_key(k) implies a[k] == b[k] by {
        if k == key(x) {
            lemma_keyed_at(t, key, val, s.len() as int);
        } else {
            let i = choose|i: int| 0 <= i < t.len() && #[trigger] key(t[i]) == k;
            assert(i < s.len());
            assert(t[i] == s[i]);
            lemma_keyed_at(t, key, val, i);
            lemma_keyed_at(s, key, val, i);
        }
    }
    assert(a =~= b);
}

/// Replacing the entry at `i` by one with the same key replaces its value.
pub proof fn lemma_keyed_update<T, V>(
    s: Seq<T>,
    key: spec_fn(T) -> Seq<char>,
    val: spec_fn(T) -> V,
    i: int,
    x: T,
)
    requires
        unique_keys(s, key),
        0 <= i < s.len(),
        key(x) == key(s[i]),
    ensures
        unique_keys(s.update(i, x), key),
        keyed(s.update(i, x), key, val) == keyed(s, key, val).insert(key(x), val(x)),
{
    let t = s.update(i, x);
    assert forall|a: int, b: int|
        0 <= a < t.len() && 0 <= b < t.len() && a != b implies #[trigger] key(t[a])
        != #[trigger] key(t[b]) by {
        assert(key(t[a]) == key(s[a]));
        assert(key(t[b]) == key(s[b]));
    }
    let ma = keyed(t, key, val);
    let mb = keyed(s, key, val).insert(key(x), val(x));
    assert forall|k: Seq<char>| ma.contains_key(k) <==> mb.contains_key(k) by {
        if has_key(s, key, k) {
            let j = choose|j: int| 0 <= j < s.len() && #[trigger] key(s[j]) == k;
            assert(key(t[j]) == key(s[j]));
        }
        if has_key(t, key, k) {
            let j = choose|j: int| 0 <= j < t.len() && #[trigger] key(t[j]) == k;
            assert(key(t[j]) == key(s[j]));
        }
        if k == key(x) {
            assert(key(t[i]) == k);
        }
    }
    assert forall|k: Seq<char>| #[trigger] ma.contains_key(k) implies ma[k] == mb[k] by {
        let j = choose|j: int| 0 <= j < t.len() && #[trigger] key(t[j]) == k;
        assert(key(t[j]) == key(s[j]));
        lemma_keyed_at(t, key, val, j);
        if j != i {
            lemma_keyed_at(s, key, val, j);
        }
    }
    assert(ma =~= mb);
}

/// Removing the entry at `i` removes its key from the map.
pub proof fn lemma_keyed_remove<T, V>(
    s: Seq<T>,
    key: spec_fn(T) -> Seq<char>,
    val: spec_fn(T) -> V,
    i: int,
)
    requires
        unique_keys(s, key),
        0 <= i < s.len(),
    ensures
        unique_keys(s.remove(i), key),
        keyed(s.remove(i), key, val) == keyed(s, key, val).remove(key(s[i])),
{
    let t = s.remove(i);
    // entry a of t is entry a of s before i, and entry a + 1 from i on
    assert forall|a: int| 0 <= a < t.len() implies #[trigger] t[a] == s[if a < i {
        a
    } else {
        a + 1
    }] by {}
    assert forall|a: int, b: int|
        0 <= a < t.len() && 0 <= b < t.len() && a != b implies #[trigger] key(t[a])
        != #[trigger] key(t[b]) by {
        assert(t[a] == s[if a < i { a } else { a + 1 }]);
        assert(t[b] == s[if b < i { b } else { b + 1 }]);
    }
    let ma = keyed(t, key, val);
    let mb = keyed(s, key, val).remove(key(s[i]));
    assert forall|k: Seq<char>| ma.contains_key(k) <==> mb.contains_key(k) by {
        if has_key(t, key, k) {
            let a = choose|a: int| 0 <= a < t.len() && #[trigger] key(t[a]) == k;
            assert(t[a] == s[if a < i { a } else { a + 1 }]);
        }
        if has_key(s, key, k) && k != key(s[i]) {
            let j = choose|j: int| 0 <= j < s.len() && #[trigger] key(s[j]) == k;
            let a = if j < i { j } else { j - 1 };
            assert(t[a] == s[j]);
        }
    }
    assert forall|k: Seq<char>| #[trigger] ma.contains_key(k) implies ma[k] == mb[k] by {
        let a = choose|a: int| 0 <= a < t.len() && #[trigger] key(t[a]) == k;
        let j = if a < i { a } else { a + 1 };
        assert(t[a] == s[j]);
        lemma_keyed_at(t, key, val, a);
        lemma_keyed_at(s, key, val, j);
    }
    assert(ma =~= mb);
}

/// The map has one key per entry.
pub proof fn lemma_keyed_len<T, V>(s: Seq<T>, key: spec_fn(T) -> Seq<char>, val: spec_fn(T) -> V)
    requires
        unique_keys(s, key),
    ensures
        keyed(s, key, val).dom().finite(),
        keyed(s, key, val).dom().len() == s.len(),
    decreases s.len(),
{
    if s.len() == 0 {
        lemma_keyed_empty(key, val);
        assert(s =~= Seq::<T>::empty());
        assert(keyed(s, key, val).dom() =~= Set::<Seq<char>>::empty());
    } else {
        let p = s.drop_last();
        let x = s.last();
        assert(p.push(x) =~= s);
        assert(unique_keys(p, key)) by {
            assert forall|a: int, b: int|
                0 <= a < p.len() && 0 <= b < p.len() && a != b implies #[trigger] key(p[a])
                != #[trigger] key(p[b]) by {
                assert(p[a] == s[a] && p[b] == s[b]);
            }
        }
        assert(!has_key(p, key, key(x))) by {
            if has_key(p, key, key(x)) {
                let a = choose|a: int| 0 <= a < p.len() && #[trigger] key(p[a]) == key(x);
                assert(p[a] == s[a]);
                assert(key(s[a]) == key(s[s.len() - 1]));
            }
        }
        lemma_keyed_len(p, key, val);
        lemma_keyed_push(p, key, val, x);
        let mp = keyed(p, key, val);
        assert(!mp.dom().contains(key(x)));
        assert(keyed(s, key, val).dom() =~= mp.dom().insert(key(x)));
    }
}

/// The map of the first `i + 1` entries adds entry `i` to the map of the first `i`.
pub proof fn lemma_keyed_prefix_step<T, V>(
    s: Seq<T>,
    key: spec_fn(T) -> Seq<char>,
    val: spec_fn(T) -> V,
    i: int,
)
    requires
        unique_keys(s, key),
        0 <= i < s.len(),
    ensures
        unique_keys(s.subrange(0, i), key),
        keyed(s.subrange(0, i), key, val).dom().finite(),
        !keyed(s.subrange(0, i), key, val).contains_key(key(s[i])),
        keyed(s.subrange(0, i + 1), key, val) == keyed(s.subrange(0, i), key, val).insert(
            key(s[i]),
            val(s[i]),
        ),
{
    let p = s.subrange(0, i);
    assert forall|a: int, b: int|
        0 <= a < p.len() && 0 <= b < p.len() && a != b implies #[trigger] key(p[a])
        != #[trigger] key(p[b]) by {
        assert(p[a] == s[a] && p[b] == s[b]);
    }
    if has_key(p, key, key(s[i])) {
        let a = choose|a: int| 0 <= a < p.len() && #[trigger] key(p[a]) == key(s[i]);
        assert(p[a] == s[a]);
    }
    lemma_keyed_len(p, key, val);
    lemma_keyed_push(p, key, val, s[i]);
    assert(p.push(s[i]) =~= s.subrange(0, i + 1));
}

} // verus!
