//! A vector of entries with unique keys, seen as a finite map.

use vstd::prelude::*;

verus! {

pub open spec fn keys_unique<T, K>(s: Seq<T>, key: spec_fn(T) -> K) -> bool {
    forall|i: int, j: int|
        0 <= i < s.len() && 0 <= j < s.len() && i != j ==> #[trigger] key(s[i]) != #[trigger] key(
            s[j],
        )
}

pub open spec fn has_key<T, K>(s: Seq<T>, key: spec_fn(T) -> K, k: K) -> bool {
    exists|i: int| 0 <= i < s.len() && #[trigger] key(s[i]) == k
}

pub open spec fn keyed_map<T, K, V>(s: Seq<T>, key: spec_fn(T) -> K, val: spec_fn(T) -> V) -> Map<
    K,
    V,
> {
    Map::new(
        |k: K| has_key(s, key, k),
        |k: K| val(s[choose|i: int| 0 <= i < s.len() && #[trigger] key(s[i]) == k]),
    )
}

pub proof fn lemma_keyed_lookup<T, K, V>(
    s: Seq<T>,
    key: spec_fn(T) -> K,
    val: spec_fn(T) -> V,
    i: int,
)
    requires
        keys_unique(s, key),
        0 <= i < s.len(),
    ensures
        keyed_map(s, key, val).contains_key(key(s[i])),
        keyed_map(s, key, val)[key(s[i])] == val(s[i]),
{
    let k = key(s[i]);
    assert(has_key(s, key, k));
    let j = choose|j: int| 0 <= j < s.len() && #[trigger] key(s[j]) == k;
    assert(j == i);
}

/// A vector with unique keys is a finite map with as many entries.
pub proof fn lemma_keyed_len<T, K, V>(s: Seq<T>, key: spec_fn(T) -> K, val: spec_fn(T) -> V)
    requires
        keys_unique(s, key),
    ensures
        keyed_map(s, key, val).dom().finite(),
        keyed_map(s, key, val).len() == s.len(),
    decreases s.len(),
{
    if s.len() == 0 {
        assert(keyed_map(s, key, val).dom() =~= Set::<K>::empty());
    } else {
        let t = s.drop_last();
        let x = s.last();
        assert forall|a: int, b: int|
            0 <= a < t.len() && 0 <= b < t.len() && a != b implies #[trigger] key(t[a])
            != #[trigger] key(t[b]) by {
            assert(t[a] == s[a] && t[b] == s[b]);
        }
        if has_key(t, key, key(x)) {
            let a = choose|a: int| 0 <= a < t.len() && #[trigger] key(t[a]) == key(x);
            assert(t[a] == s[a]);
            assert(key(s[a]) == key(s[s.len() - 1]));
        }
        lemma_keyed_len(t, key, val);
        lemma_keyed_push(t, key, val, x);
        assert(t.push(x) =~= s);
    }
}

/// Changing the value of each entry in place, and none of the keys, maps
/// the values of the map.
pub proof fn lemma_keyed_map_values<T, K, V>(
    a: Seq<T>,
    b: Seq<T>,
    key: spec_fn(T) -> K,
    val: spec_fn(T) -> V,
    f: spec_fn(V) -> V,
)
    requires
        keys_unique(a, key),
        a.len() == b.len(),
        forall|j: int| 0 <= j < a.len() ==> #[trigger] key(b[j]) == key(a[j]),
        forall|j: int| 0 <= j < a.len() ==> #[trigger] val(b[j]) == f(val(a[j])),
    ensures
        keys_unique(b, key),
        keyed_map(b, key, val) == keyed_map(a, key, val).map_values(f),
{
    assert forall|x: int, y: int|
        0 <= x < b.len() && 0 <= y < b.len() && x != y implies #[trigger] key(b[x])
        != #[trigger] key(b[y]) by {
        assert(key(b[x]) == key(a[x]));
        assert(key(b[y]) == key(a[y]));
    }
    let ma = keyed_map(a, key, val);
    let mb = keyed_map(b, key, val);
    let md = ma.map_values(f);
    assert forall|k: K| mb.contains_key(k) <==> md.contains_key(k) by {
        if has_key(b, key, k) {
            let x = choose|x: int| 0 <= x < b.len() && #[trigger] key(b[x]) == k;
            assert(key(a[x]) == k);
        }
        if has_key(a, key, k) {
            let x = choose|x: int| 0 <= x < a.len() && #[trigger] key(a[x]) == k;
            assert(key(b[x]) == k);
        }
    }
    assert forall|k: K| #[trigger] mb.contains_key(k) implies mb[k] == md[k] by {
        let x = choose|x: int| 0 <= x < b.len() && #[trigger] key(b[x]) == k;
        lemma_keyed_lookup(b, key, val, x);
        assert(key(a[x]) == k);
        lemma_keyed_lookup(a, key, val, x);
    }
    assert(mb =~= md);
}

pub proof fn lemma_keyed_absent<T, K, V>(s: Seq<T>, key: spec_fn(T) -> K, val: spec_fn(T) -> V, k: K)
    requires
        forall|i: int| 0 <= i < s.len() ==> #[trigger] key(s[i]) != k,
    ensures
        !keyed_map(s, key, val).contains_key(k),
{
}

pub proof fn lemma_keyed_push<T, K, V>(s: Seq<T>, key: spec_fn(T) -> K, val: spec_fn(T) -> V, x: T)
    requires
        keys_unique(s, key),
        !has_key(s, key, key(x)),
    ensures
        keys_unique(s.push(x), key),
        keyed_map(s.push(x), key, val) == keyed_map(s, key, val).insert(key(x), val(x)),
{
    let t = s.push(x);
    assert forall|a: int, b: int|
        0 <= a < t.len() && 0 <= b < t.len() && a != b implies #[trigger] key(t[a])
        != #[trigger] key(t[b]) by {
        if a == s.len() {
            assert(t[b] == s[b]);
        } else if b == s.len() {
            assert(t[a] == s[a]);
        } else {
            assert(t[a] == s[a] && t[b] == s[b]);
        }
    }
    let m1 = keyed_map(t, key, val);
    let m2 = keyed_map(s, key, val).insert(key(x), val(x));
    assert forall|k: K| m1.contains_key(k) <==> m2.contains_key(k) by {
        if has_key(t, key, k) {
            let a = choose|a: int| 0 <= a < t.len() && #[trigger] key(t[a]) == k;
            if a < s.len() {
                assert(s[a] == t[a]);
            }
        }
        if has_key(s, key, k) {
            let a = choose|a: int| 0 <= a < s.len() && #[trigger] key(s[a]) == k;
            assert(t[a] == s[a]);
        }
        if k == key(x) {
            assert(t[s.len() as int] == x);
        }
    }
    assert forall|k: K| #[trigger] m1.contains_key(k) implies m1[k] == m2[k] by {
        let a = choose|a: int| 0 <= a < t.len() && #[trigger] key(t[a]) == k;
        lemma_keyed_lookup(t, key, val, a);
        if a < s.len() {
            assert(s[a] == t[a]);
            lemma_keyed_lookup(s, key, val, a);
        }
    }
    assert(m1 =~= m2);
}

pub proof fn lemma_keyed_update<T, K, V>(
    s: Seq<T>,
    key: spec_fn(T) -> K,
    val: spec_fn(T) -> V,
    i: int,
    x: T,
)
    requires
        keys_unique(s, key),
        0 <= i < s.len(),
        key(x) == key(s[i]),
    ensures
        keys_unique(s.update(i, x), key),
        keyed_map(s.update(i, x), key, val) == keyed_map(s, key, val).insert(key(x), val(x)),
{
    let t = s.update(i, x);
    assert forall|a: int, b: int|
        0 <= a < t.len() && 0 <= b < t.len() && a != b implies #[trigger] key(t[a])
        != #[trigger] key(t[b]) by {
        assert(key(t[a]) == key(s[a]));
        assert(key(t[b]) == key(s[b]));
    }
    let m1 = keyed_map(t, key, val);
    let m2 = keyed_map(s, key, val).insert(key(x), val(x));
    assert forall|k: K| m1.contains_key(k) <==> m2.contains_key(k) by {
        if has_key(t, key, k) {
            let a = choose|a: int| 0 <= a < t.len() && #[trigger] key(t[a]) == k;
            assert(key(s[a]) == k);
        }
        if has_key(s, key, k) {
            let a = choose|a: int| 0 <= a < s.len() && #[trigger] key(s[a]) == k;
            assert(key(t[a]) == k);
        }
    }
    assert forall|k: K| #[trigger] m1.contains_key(k) implies m1[k] == m2[k] by {
        let a = choose|a: int| 0 <= a < t.len() && #[trigger] key(t[a]) == k;
        lemma_keyed_lookup(t, key, val, a);
        if a != i {
            assert(s[a] == t[a]);
            lemma_keyed_lookup(s, key, val, a);
        }
    }
    assert(m1 =~= m2);
}

pub proof fn lemma_keyed_remove<T, K, V>(
    s: Seq<T>,
    key: spec_fn(T) -> K,
    val: spec_fn(T) -> V,
    i: int,
)
    requires
        keys_unique(s, key),
        0 <= i < s.len(),
    ensures
        keys_unique(s.remove(i), key),
        keyed_map(s.remove(i), key, val) == keyed_map(s, key, val).remove(key(s[i])),
{
    let t = s.remove(i);
    assert forall|a: int, b: int|
        0 <= a < t.len() && 0 <= b < t.len() && a != b implies #[trigger] key(t[a])
        != #[trigger] key(t[b]) by {
        let a2 = if a < i {
            a
        } else {
            a + 1
        };
        let b2 = if b < i {
            b
        } else {
            b + 1
        };
        assert(t[a] == s[a2]);
        assert(t[b] == s[b2]);
    }
    let m1 = keyed_map(t, key, val);
    let m2 = keyed_map(s, key, val).remove(key(s[i]));
    assert forall|k: K| m1.contains_key(k) <==> m2.contains_key(k) by {
        if has_key(t, key, k) {
            let a = choose|a: int| 0 <= a < t.len() && #[trigger] key(t[a]) == k;
            let a2 = if a < i {
                a
            } else {
                a + 1
            };
            assert(t[a] == s[a2]);
            assert(has_key(s, key, k));
        }
        if has_key(s, key, k) && k != key(s[i]) {
            let a = choose|a: int| 0 <= a < s.len() && #[trigger] key(s[a]) == k;
            if a < i {
                assert(t[a] == s[a]);
            } else {
                assert(a != i);
                assert(t[a - 1] == s[a]);
            }
        }
    }
    assert forall|k: K| #[trigger] m1.contains_key(k) implies m1[k] == m2[k] by {
        let a = choose|a: int| 0 <= a < t.len() && #[trigger] key(t[a]) == k;
        lemma_keyed_lookup(t, key, val, a);
        let a2 = if a < i {
            a
        } else {
            a + 1
        };
        assert(t[a] == s[a2]);
        lemma_keyed_lookup(s, key, val, a2);
    }
    assert(m1 =~= m2);
}

} // verus!
