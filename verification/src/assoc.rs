//! Association lists keyed by byte strings.
//!
//! The wantlist and the two bounded caches of the engine are modelled as
//! sequences of `(key, value)` pairs in which no key occurs twice. This module
//! holds the vocabulary shared by those models.

use vstd::prelude::*;

verus! {

/// A key as the models see it.
pub type Key = Seq<u8>;

/// Whether some pair of `s` has the key `k`.
pub open spec fn has_key<V>(s: Seq<(Key, V)>, k: Key) -> bool {
    exists|i: int| 0 <= i < s.len() && (#[trigger] s[i]).0 == k
}

/// The position of the pair with key `k`, where there is one.
pub open spec fn key_index<V>(s: Seq<(Key, V)>, k: Key) -> int {
    choose|i: int| 0 <= i < s.len() && (#[trigger] s[i]).0 == k
}

/// No key occurs twice.
pub open spec fn keys_unique<V>(s: Seq<(Key, V)>) -> bool {
    forall|i: int, j: int| 0 <= i < j < s.len() ==> (#[trigger] s[i]).0 != (#[trigger] s[j]).0
}

/// The value stored under `k`, where there is one.
pub open spec fn lookup<V>(s: Seq<(Key, V)>, k: Key) -> Option<V> {
    if has_key(s, k) {
        Some(s[key_index(s, k)].1)
    } else {
        None
    }
}

/// `s` with the value under `k` set in place, or appended where `k` is new.
pub open spec fn upsert<V>(s: Seq<(Key, V)>, k: Key, v: V) -> Seq<(Key, V)> {
    if has_key(s, k) {
        s.update(key_index(s, k), (k, v))
    } else {
        s.push((k, v))
    }
}

/// `s` without the pair under `k`.
pub open spec fn delete<V>(s: Seq<(Key, V)>, k: Key) -> Seq<(Key, V)> {
    if has_key(s, k) {
        s.remove(key_index(s, k))
    } else {
        s
    }
}

/// `s` after `k` was used with value `v` in a cache of at most `cap` pairs:
/// the pair moves to the front, and where `k` is new and the cache is full the
/// pair at the back, the least recently used one, leaves.
pub open spec fn promote<V>(s: Seq<(Key, V)>, cap: int, k: Key, v: V) -> Seq<(Key, V)> {
    if has_key(s, k) {
        seq![(k, v)] + s.remove(key_index(s, k))
    } else if s.len() == cap {
        seq![(k, v)] + s.drop_last()
    } else {
        seq![(k, v)] + s
    }
}

/// In a list without repeated keys, a position that holds `k` is the position of `k`.
pub proof fn lemma_key_index<V>(s: Seq<(Key, V)>, k: Key, i: int)
    requires
        keys_unique(s),
        0 <= i < s.len(),
        s[i].0 == k,
    ensures
        has_key(s, k),
        key_index(s, k) == i,
{
    let j = key_index(s, k);
    assert(0 <= j < s.len() && s[j].0 == k);
    if j < i {
        assert(s[j].0 != s[i].0);
    }
    if i < j {
        assert(s[i].0 != s[j].0);
    }
}

/// Where `k` is present, its position is in range and holds `k`.
pub proof fn lemma_key_index_valid<V>(s: Seq<(Key, V)>, k: Key)
    requires
        has_key(s, k),
    ensures
        0 <= key_index(s, k) < s.len(),
        s[key_index(s, k)].0 == k,
{
}

/// Changing a value where it stands keeps every key unique and in its place.
pub proof fn lemma_update_value<V>(s: Seq<(Key, V)>, i: int, v: V)
    requires
        keys_unique(s),
        0 <= i < s.len(),
    ensures
        keys_unique(s.update(i, (s[i].0, v))),
        has_key(s.update(i, (s[i].0, v)), s[i].0),
        key_index(s.update(i, (s[i].0, v)), s[i].0) == i,
{
    let t = s.update(i, (s[i].0, v));
    assert forall|a: int, b: int| 0 <= a < b < t.len() implies (#[trigger] t[a]).0 != (
    #[trigger] t[b]).0 by {
        assert(s[a].0 != s[b].0);
    }
    lemma_key_index(t, s[i].0, i);
}

/// Setting a value keeps keys unique, stores the value, and leaves other keys alone.
pub proof fn lemma_upsert<V>(s: Seq<(Key, V)>, k: Key, v: V)
    requires
        keys_unique(s),
    ensures
        keys_unique(upsert(s, k, v)),
        lookup(upsert(s, k, v), k) == Some(v),
        forall|o: Key| o != k ==> #[trigger] lookup(upsert(s, k, v), o) == lookup(s, o),
{
    let t = upsert(s, k, v);
    if has_key(s, k) {
        let i = key_index(s, k);
        assert forall|a: int, b: int| 0 <= a < b < t.len() implies (#[trigger] t[a]).0 != (
        #[trigger] t[b]).0 by {
            assert(s[a].0 != s[b].0);
        }
        lemma_key_index(t, k, i);
    } else {
        assert forall|a: int, b: int| 0 <= a < b < t.len() implies (#[trigger] t[a]).0 != (
        #[trigger] t[b]).0 by {
            if b < s.len() {
                assert(s[a].0 != s[b].0);
            } else {
                assert(s[a].0 != k);
            }
        }
        lemma_key_index(t, k, s.len() as int);
    }
    assert forall|o: Key| o != k implies #[trigger] lookup(t, o) == lookup(s, o) by {
        if has_key(s, o) {
            let j = key_index(s, o);
            assert(t[j] == s[j]);
            lemma_key_index(t, o, j);
        } else {
            if has_key(t, o) {
                let j = key_index(t, o);
                if j < s.len() {
                    assert(s[j].0 == o);
                }
                assert(false);
            }
        }
    }
}

/// Deleting a key keeps keys unique, removes the key, and leaves other keys alone.
pub proof fn lemma_delete<V>(s: Seq<(Key, V)>, k: Key)
    requires
        keys_unique(s),
    ensures
        keys_unique(delete(s, k)),
        !has_key(delete(s, k), k),
        forall|o: Key| o != k ==> #[trigger] lookup(delete(s, k), o) == lookup(s, o),
        delete(s, k).len() <= s.len(),
{
    let t = delete(s, k);
    if has_key(s, k) {
        let i = key_index(s, k);
        assert forall|a: int, b: int| 0 <= a < b < t.len() implies (#[trigger] t[a]).0 != (
        #[trigger] t[b]).0 by {
            let a0 = if a < i { a } else { a + 1 };
            let b0 = if b < i { b } else { b + 1 };
            assert(t[a] == s[a0] && t[b] == s[b0]);
            assert(s[a0].0 != s[b0].0);
        }
        if has_key(t, k) {
            let j = key_index(t, k);
            let j0 = if j < i { j } else { j + 1 };
            assert(t[j] == s[j0]);
            lemma_key_index(s, k, j0);
            assert(false);
        }
        assert forall|o: Key| o != k implies #[trigger] lookup(t, o) == lookup(s, o) by {
            if has_key(s, o) {
                let j = key_index(s, o);
                let j1 = if j < i { j } else { j - 1 };
                assert(t[j1] == s[j]);
                lemma_key_index(t, o, j1);
            } else {
                if has_key(t, o) {
                    let j = key_index(t, o);
                    let j0 = if j < i { j } else { j + 1 };
                    assert(t[j] == s[j0]);
                    assert(s[j0].0 == o);
                    assert(false);
                }
            }
        }
    }
}

/// Using a key in a bounded cache keeps keys unique and the bound, and puts the pair in front.
pub proof fn lemma_promote<V>(s: Seq<(Key, V)>, cap: int, k: Key, v: V)
    requires
        keys_unique(s),
        s.len() <= cap,
        cap > 0,
    ensures
        keys_unique(promote(s, cap, k, v)),
        promote(s, cap, k, v).len() <= cap,
        promote(s, cap, k, v).len() > 0,
        promote(s, cap, k, v)[0] == (k, v),
        lookup(promote(s, cap, k, v), k) == Some(v),
{
    let t = promote(s, cap, k, v);
    let rest = t.subrange(1, t.len() as int);
    if has_key(s, k) {
        lemma_delete(s, k);
        assert(rest =~= delete(s, k));
    } else if s.len() == cap {
        assert(rest =~= s.drop_last());
    } else {
        assert(rest =~= s);
    }
    assert forall|a: int| 0 <= a < rest.len() implies (#[trigger] rest[a]).0 != k by {
        if has_key(s, k) {
            if rest[a].0 == k {
                assert(has_key(rest, k));
            }
        } else {
            assert(rest[a] == s[a]);
        }
    }
    assert forall|a: int, b: int| 0 <= a < b < rest.len() implies (#[trigger] rest[a]).0 != (
    #[trigger] rest[b]).0 by {
        if has_key(s, k) {
        } else {
            assert(rest[a] == s[a] && rest[b] == s[b]);
        }
    }
    assert forall|a: int, b: int| 0 <= a < b < t.len() implies (#[trigger] t[a]).0 != (
    #[trigger] t[b]).0 by {
        assert(t[b] == rest[b - 1]);
        if a > 0 {
            assert(t[a] == rest[a - 1]);
        }
    }
    lemma_key_index(t, k, 0);
}

} // verus!
