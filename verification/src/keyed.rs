//! Sequences used as maps: each element carries a key, keys are distinct,
//! and a key looks up its element.

use vstd::prelude::*;

verus! {

/// Index of the last element with key `k`, or -1.
pub open spec fn last_index_of<T, K>(s: Seq<T>, key: spec_fn(T) -> K, k: K) -> int
    decreases s.len(),
{
    if s.len() == 0 {
        -1
    } else if key(s.last()) == k {
        s.len() - 1
    } else {
        last_index_of(s.drop_last(), key, k)
    }
}

/// The element with key `k`, if any.
pub open spec fn lookup<T, K>(s: Seq<T>, key: spec_fn(T) -> K, k: K) -> Option<T> {
    let i = last_index_of(s, key, k);
    if i >= 0 {
        Some(s[i])
    } else {
        None
    }
}

/// No two elements share a key.
pub open spec fn keys_unique<T, K>(s: Seq<T>, key: spec_fn(T) -> K) -> bool {
    forall|i: int, j: int| 0 <= i < s.len() && 0 <= j < s.len() && i != j ==> key(#[trigger] s[i]) != key(#[trigger] s[j])
}

pub proof fn lemma_last_index_of<T, K>(s: Seq<T>, key: spec_fn(T) -> K, k: K)
    ensures
        -1 <= last_index_of(s, key, k) < s.len(),
        last_index_of(s, key, k) >= 0 ==> key(s[last_index_of(s, key, k)]) == k,
        last_index_of(s, key, k) < 0 ==> forall|i: int| 0 <= i < s.len() ==> key(#[trigger] s[i]) != k,
    decreases s.len(),
{
    if s.len() > 0 && key(s.last()) != k {
        lemma_last_index_of(s.drop_last(), key, k);
        if last_index_of(s, key, k) < 0 {
            assert forall|i: int| 0 <= i < s.len() implies key(#[trigger] s[i]) != k by {
                if i < s.len() - 1 {
                    assert(s[i] == s.drop_last()[i]);
                }
            }
        }
    }
}

/// With distinct keys, an element is what its key looks up.
pub proof fn lemma_lookup_at<T, K>(s: Seq<T>, key: spec_fn(T) -> K, i: int)
    requires
        keys_unique(s, key),
        0 <= i < s.len(),
    ensures
        lookup(s, key, key(s[i])) == Some(s[i]),
{
    lemma_last_index_of(s, key, key(s[i]));
    let j = last_index_of(s, key, key(s[i]));
    if j != i {
        assert(key(s[j]) == key(s[i]));
    }
}

/// A key that no element has looks up nothing.
pub proof fn lemma_lookup_absent<T, K>(s: Seq<T>, key: spec_fn(T) -> K, k: K)
    requires
        forall|i: int| 0 <= i < s.len() ==> key(#[trigger] s[i]) != k,
    ensures
        lookup(s, key, k) is None,
{
    lemma_last_index_of(s, key, k);
}

/// What a key looks up is an element with that key.
pub proof fn lemma_lookup_found<T, K>(s: Seq<T>, key: spec_fn(T) -> K, k: K)
    ensures
        lookup(s, key, k) matches Some(x) ==> key(x) == k && s.contains(x),
        lookup(s, key, k) is None ==> forall|i: int| 0 <= i < s.len() ==> key(#[trigger] s[i]) != k,
{
    lemma_last_index_of(s, key, k);
    if lookup(s, key, k) is Some {
        assert(s[last_index_of(s, key, k)] == lookup(s, key, k).unwrap());
    }
}

/// Appending an element with a new key adds just that key.
pub proof fn lemma_lookup_push<T, K>(s: Seq<T>, key: spec_fn(T) -> K, x: T)
    requires
        keys_unique(s, key),
        forall|i: int| 0 <= i < s.len() ==> key(#[trigger] s[i]) != key(x),
    ensures
        keys_unique(s.push(x), key),
        forall|k: K| #[trigger] lookup(s.push(x), key, k) == if k == key(x) { Some(x) } else { lookup(s, key, k) },
{
    let u = s.push(x);
    assert(u.drop_last() =~= s);
    assert forall|a: int, b: int| 0 <= a < u.len() && 0 <= b < u.len() && a != b implies key(#[trigger] u[a]) != key(
        #[trigger] u[b],
    ) by {
        if a < s.len() {
            assert(u[a] == s[a]);
        }
        if b < s.len() {
            assert(u[b] == s[b]);
        }
    }
    assert forall|k: K| #[trigger] lookup(u, key, k) == if k == key(x) { Some(x) } else { lookup(s, key, k) } by {
        assert(u.last() == x);
        lemma_last_index_of(s, key, k);
    }
}

/// Replacing an element by one with the same key changes just that key.
pub proof fn lemma_lookup_update<T, K>(s: Seq<T>, key: spec_fn(T) -> K, i: int, x: T)
    requires
        keys_unique(s, key),
        0 <= i < s.len(),
        key(x) == key(s[i]),
    ensures
        keys_unique(s.update(i, x), key),
        forall|k: K| #[trigger] lookup(s.update(i, x), key, k) == if k == key(x) { Some(x) } else { lookup(s, key, k) },
{
    let u = s.update(i, x);
    assert forall|a: int, b: int| 0 <= a < u.len() && 0 <= b < u.len() && a != b implies key(#[trigger] u[a]) != key(
        #[trigger] u[b],
    ) by {
        assert(key(u[a]) == key(s[a]));
        assert(key(u[b]) == key(s[b]));
    }
    assert forall|k: K| #[trigger] lookup(u, key, k) == if k == key(x) { Some(x) } else { lookup(s, key, k) } by {
        if k == key(x) {
            lemma_lookup_at(u, key, i);
        } else {
            lemma_last_index_of(s, key, k);
            let j = last_index_of(s, key, k);
            if j >= 0 {
                lemma_lookup_at(u, key, j);
                lemma_lookup_at(s, key, j);
            } else {
                assert forall|m: int| 0 <= m < u.len() implies key(#[trigger] u[m]) != k by {
                    if m != i {
                        assert(u[m] == s[m]);
                    }
                }
                lemma_lookup_absent(u, key, k);
            }
        }
    }
}

/// Removing the element at `i` forgets just its key.
pub proof fn lemma_lookup_remove<T, K>(s: Seq<T>, key: spec_fn(T) -> K, i: int)
    requires
        keys_unique(s, key),
        0 <= i < s.len(),
    ensures
        keys_unique(s.remove(i), key),
        forall|k: K| #[trigger] lookup(s.remove(i), key, k) == if k == key(s[i]) { None } else { lookup(s, key, k) },
{
    let u = s.remove(i);
    assert forall|a: int, b: int| 0 <= a < u.len() && 0 <= b < u.len() && a != b implies key(#[trigger] u[a]) != key(
        #[trigger] u[b],
    ) by {
        let a2 = if a < i { a } else { a + 1 };
        let b2 = if b < i { b } else { b + 1 };
        assert(u[a] == s[a2]);
        assert(u[b] == s[b2]);
    }
    assert forall|k: K| #[trigger] lookup(u, key, k) == if k == key(s[i]) { None } else { lookup(s, key, k) } by {
        if k == key(s[i]) {
            assert forall|m: int| 0 <= m < u.len() implies key(#[trigger] u[m]) != k by {
                let m2 = if m < i { m } else { m + 1 };
                assert(u[m] == s[m2]);
            }
            lemma_lookup_absent(u, key, k);
        } else {
            lemma_last_index_of(s, key, k);
            let j = last_index_of(s, key, k);
            if j >= 0 {
                let j2 = if j < i { j } else { j - 1 };
                assert(u[j2] == s[j]);
                lemma_lookup_at(u, key, j2);
                lemma_lookup_at(s, key, j);
            } else {
                assert forall|m: int| 0 <= m < u.len() implies key(#[trigger] u[m]) != k by {
                    let m2 = if m < i { m } else { m + 1 };
                    assert(u[m] == s[m2]);
                }
                lemma_lookup_absent(u, key, k);
            }
        }
    }
}

} // verus!
