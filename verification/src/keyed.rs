use vstd::prelude::*;

verus! {

/// Some element of `s` has the key `k` under `key`.
pub open spec fn has_key<T, K>(s: Seq<T>, key: spec_fn(T) -> K, k: K) -> bool {
    exists|i: int| 0 <= i < s.len() && key(#[trigger] s[i]) == k
}

/// No two elements of `s` have the same key under `key`.
pub open spec fn keys_unique<T, K>(s: Seq<T>, key: spec_fn(T) -> K) -> bool {
    forall|i: int, j: int|
        0 <= i < s.len() && 0 <= j < s.len() && key(#[trigger] s[i]) == key(#[trigger] s[j]) ==> i
            == j
}

/// The keys of the elements of `s`.
pub open spec fn key_set<T, K>(s: Seq<T>, key: spec_fn(T) -> K) -> Set<K> {
    Set::new(|k: K| has_key(s, key, k))
}

/// Appending an element with a new key keeps the keys unique and adds that key.
pub proof fn lemma_push_fresh<T, K>(s: Seq<T>, key: spec_fn(T) -> K, e: T)
    requires
        keys_unique(s, key),
        !has_key(s, key, key(e)),
    ensures
        keys_unique(s.push(e), key),
        key_set(s.push(e), key) == key_set(s, key).insert(key(e)),
{
    let t = s.push(e);
    assert forall|i: int, j: int|
        0 <= i < t.len() && 0 <= j < t.len() && key(#[trigger] t[i]) == key(
            #[trigger] t[j],
        ) implies i == j by {
        if i < s.len() && j < s.len() {
            assert(key(s[i]) == key(s[j]));
        } else if i < s.len() {
            assert(key(s[i]) == key(e));
        } else if j < s.len() {
            assert(key(s[j]) == key(e));
        }
    }
    assert forall|k: K| #[trigger] key_set(t, key).contains(k) <==> key_set(s, key).insert(
        key(e),
    ).contains(k) by {
        if has_key(t, key, k) {
            let i = choose|i: int| 0 <= i < t.len() && key(#[trigger] t[i]) == k;
            if i < s.len() {
                assert(key(s[i]) == k);
            }
        }
        if has_key(s, key, k) {
            let i = choose|i: int| 0 <= i < s.len() && key(#[trigger] s[i]) == k;
            assert(key(t[i]) == k);
        }
        if k == key(e) {
            assert(key(t[s.len() as int]) == k);
        }
    }
    assert(key_set(t, key) =~= key_set(s, key).insert(key(e)));
}

/// Removing an element keeps the keys unique, removes its key, and keeps
/// every other element, in order.
pub proof fn lemma_remove<T, K>(s: Seq<T>, key: spec_fn(T) -> K, i: int)
    requires
        keys_unique(s, key),
        0 <= i < s.len(),
    ensures
        keys_unique(s.remove(i), key),
        key_set(s.remove(i), key) == key_set(s, key).remove(key(s[i])),
        forall|a: int|
            0 <= a < s.remove(i).len() ==> #[trigger] s.remove(i)[a] == s[if a < i {
                a
            } else {
                a + 1
            }],
{
    let t = s.remove(i);
    assert forall|a: int| 0 <= a < t.len() implies #[trigger] t[a] == s[if a < i {
        a
    } else {
        a + 1
    }] by {}
    assert forall|a: int, b: int|
        0 <= a < t.len() && 0 <= b < t.len() && key(#[trigger] t[a]) == key(
            #[trigger] t[b],
        ) implies a == b by {
        let sa = if a < i { a } else { a + 1 };
        let sb = if b < i { b } else { b + 1 };
        assert(t[a] == s[sa] && t[b] == s[sb]);
        assert(key(s[sa]) == key(s[sb]));
    }
    assert forall|k: K| #[trigger] key_set(t, key).contains(k) <==> key_set(s, key).remove(
        key(s[i]),
    ).contains(k) by {
        if has_key(t, key, k) {
            let a = choose|a: int| 0 <= a < t.len() && key(#[trigger] t[a]) == k;
            let sa = if a < i { a } else { a + 1 };
            assert(t[a] == s[sa]);
            assert(key(s[sa]) == k);
            if k == key(s[i]) {
                assert(key(s[i]) == key(s[sa]));
            }
        }
        if has_key(s, key, k) && k != key(s[i]) {
            let b = choose|b: int| 0 <= b < s.len() && key(#[trigger] s[b]) == k;
            assert(b != i);
            let tb = if b < i { b } else { b - 1 };
            assert(t[tb] == s[b]);
            assert(key(t[tb]) == k);
        }
    }
    assert(key_set(t, key) =~= key_set(s, key).remove(key(s[i])));
}

/// With unique keys, the key set is finite and has one key per element.
pub proof fn lemma_key_set_len<T, K>(s: Seq<T>, key: spec_fn(T) -> K)
    requires
        keys_unique(s, key),
    ensures
        key_set(s, key).finite(),
        key_set(s, key).len() == s.len(),
    decreases s.len(),
{
    if s.len() == 0 {
        assert(key_set(s, key) =~= Set::<K>::empty());
    } else {
        let p = s.drop_last();
        assert forall|i: int, j: int|
            0 <= i < p.len() && 0 <= j < p.len() && key(#[trigger] p[i]) == key(
                #[trigger] p[j],
            ) implies i == j by {
            assert(p[i] == s[i] && p[j] == s[j]);
        }
        lemma_key_set_len(p, key);
        if has_key(p, key, key(s.last())) {
            let i = choose|i: int| 0 <= i < p.len() && key(#[trigger] p[i]) == key(s.last());
            assert(p[i] == s[i]);
            assert(key(s[i]) == key(s[s.len() - 1]));
        }
        lemma_push_fresh(p, key, s.last());
        assert(p.push(s.last()) =~= s);
    }
}

} // verus!
