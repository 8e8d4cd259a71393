use vstd::prelude::*;

verus! {

/// The elements of `s` whose key has not occurred before them, in their order:
/// the first element of each key is kept.
pub open spec fn first_by<A, K>(s: Seq<A>, key: spec_fn(A) -> K) -> Seq<A>
    decreases s.len(),
{
    if s.len() == 0 {
        s
    } else {
        let kept = first_by(s.drop_last(), key);
        if s.drop_last().map_values(key).contains(key(s.last())) {
            kept
        } else {
            kept.push(s.last())
        }
    }
}

/// True when no two elements of `s` share a key.
pub open spec fn keys_unique<A, K>(s: Seq<A>, key: spec_fn(A) -> K) -> bool {
    forall|i: int, j: int| 0 <= i < s.len() && 0 <= j < s.len() && i != j ==> key(s[i]) != key(s[j])
}

/// True when some element of `s` has key `k`.
pub open spec fn has_key<A, K>(s: Seq<A>, key: spec_fn(A) -> K, k: K) -> bool {
    exists|i: int| 0 <= i < s.len() && key(s[i]) == k
}

proof fn lemma_has_key_map<A, K>(s: Seq<A>, key: spec_fn(A) -> K, k: K)
    ensures
        s.map_values(key).contains(k) == has_key(s, key, k),
{
    if s.map_values(key).contains(k) {
        let i = choose|i: int| 0 <= i < s.map_values(key).len() && s.map_values(key)[i] == k;
        assert(0 <= i < s.len() && key(s[i]) == k);
    }
    if has_key(s, key, k) {
        let i = choose|i: int| 0 <= i < s.len() && key(s[i]) == k;
        assert(s.map_values(key)[i] == k);
    }
}

/// What `first_by` keeps: no key twice, each key of `s` once, elements of `s` only,
/// and `s` itself exactly when its keys are already unique.
pub proof fn lemma_first_by<A, K>(s: Seq<A>, key: spec_fn(A) -> K)
    ensures
        first_by(s, key).len() <= s.len(),
        keys_unique(first_by(s, key), key),
        forall|k: K| has_key(first_by(s, key), key, k) == has_key(s, key, k),
        forall|x: A| first_by(s, key).contains(x) ==> s.contains(x),
        (first_by(s, key).len() == s.len()) == keys_unique(s, key),
        keys_unique(s, key) ==> first_by(s, key) == s,
    decreases s.len(),
{
    if s.len() > 0 {
        let t = s.drop_last();
        let x = s.last();
        let p = first_by(t, key);
        lemma_first_by(t, key);
        lemma_has_key_map(t, key, key(x));
        let q = first_by(s, key);
        assert(t.len() == s.len() - 1);
        assert(forall|i: int| 0 <= i < t.len() ==> t[i] == s[i]);
        if has_key(t, key, key(x)) {
            assert(q == p);
        } else {
            assert(q == p.push(x));
        }
        assert forall|k: K| has_key(q, key, k) == has_key(s, key, k) by {
            assert(has_key(p, key, k) == has_key(t, key, k));
            if has_key(s, key, k) {
                let i = choose|i: int| 0 <= i < s.len() && key(s[i]) == k;
                if i < t.len() {
                    assert(key(t[i]) == k);
                    assert(has_key(p, key, k));
                    let j = choose|j: int| 0 <= j < p.len() && key(p[j]) == k;
                    assert(q[j] == p[j]);
                } else if has_key(t, key, key(x)) {
                    assert(has_key(p, key, key(x)));
                    let j = choose|j: int| 0 <= j < p.len() && key(p[j]) == key(x);
                    assert(key(q[j]) == k);
                } else {
                    assert(q[p.len() as int] == x);
                }
            }
            if has_key(q, key, k) {
                let j = choose|j: int| 0 <= j < q.len() && key(q[j]) == k;
                if j < p.len() {
                    assert(q[j] == p[j]);
                    assert(has_key(p, key, k));
                    let i = choose|i: int| 0 <= i < t.len() && key(t[i]) == k;
                    assert(s[i] == t[i]);
                } else {
                    assert(key(s[s.len() - 1]) == k);
                }
            }
        }
        assert forall|y: A| q.contains(y) implies s.contains(y) by {
            let j = choose|j: int| 0 <= j < q.len() && q[j] == y;
            if j < p.len() {
                assert(q[j] == p[j]);
                assert(p.contains(y));
                assert(t.contains(y));
                let i = choose|i: int| 0 <= i < t.len() && t[i] == y;
                assert(s[i] == y);
            } else {
                assert(s[s.len() - 1] == y);
            }
        }
        if has_key(t, key, key(x)) {
            let i = choose|i: int| 0 <= i < t.len() && key(t[i]) == key(x);
            assert(key(s[i]) == key(s[s.len() - 1]));
            assert(!keys_unique(s, key));
        } else {
            assert forall|i: int, j: int| 0 <= i < q.len() && 0 <= j < q.len() && i != j
                implies key(q[i]) != key(q[j]) by {
                if i < p.len() && j < p.len() {
                    assert(q[i] == p[i] && q[j] == p[j]);
                } else if i < p.len() {
                    assert(q[i] == p[i]);
                    assert(has_key(p, key, key(q[i])));
                } else if j < p.len() {
                    assert(q[j] == p[j]);
                    assert(has_key(p, key, key(q[j])));
                }
            }
            if keys_unique(s, key) {
                assert forall|i: int, j: int| 0 <= i < t.len() && 0 <= j < t.len() && i != j
                    implies key(t[i]) != key(t[j]) by {
                    assert(s[i] == t[i] && s[j] == t[j]);
                }
                assert(s == t.push(x));
            }
            if q.len() == s.len() {
                assert forall|i: int, j: int| 0 <= i < s.len() && 0 <= j < s.len() && i != j
                    implies key(s[i]) != key(s[j]) by {
                    if i < t.len() && j < t.len() {
                        assert(s[i] == t[i] && s[j] == t[j]);
                    } else if i < t.len() {
                        assert(s[i] == t[i]);
                    } else if j < t.len() {
                        assert(s[j] == t[j]);
                    }
                }
            }
        }
    }
}

/// Two sequences whose elements have, position by position, the same keys are both
/// unique in their keys or both not.
pub proof fn lemma_keys_unique_pointwise<A, B, K>(a: Seq<A>, ka: spec_fn(A) -> K, b: Seq<B>, kb: spec_fn(B) -> K)
    requires
        a.len() == b.len(),
        forall|i: int| 0 <= i < a.len() ==> ka(a[i]) == kb(b[i]),
    ensures
        keys_unique(a, ka) == keys_unique(b, kb),
{
    if keys_unique(a, ka) {
        assert forall|i: int, j: int| 0 <= i < b.len() && 0 <= j < b.len() && i != j implies kb(b[i]) != kb(b[j]) by {
            assert(ka(a[i]) == kb(b[i]) && ka(a[j]) == kb(b[j]));
        }
    }
    if keys_unique(b, kb) {
        assert forall|i: int, j: int| 0 <= i < a.len() && 0 <= j < a.len() && i != j implies ka(a[i]) != ka(a[j]) by {
            assert(ka(a[i]) == kb(b[i]) && ka(a[j]) == kb(b[j]));
        }
    }
}

/// Two sequences whose elements have, position by position, the same keys hold the same keys.
pub proof fn lemma_has_key_pointwise<A, B, K>(a: Seq<A>, ka: spec_fn(A) -> K, b: Seq<B>, kb: spec_fn(B) -> K, k: K)
    requires
        a.len() == b.len(),
        forall|i: int| 0 <= i < a.len() ==> ka(a[i]) == kb(b[i]),
    ensures
        has_key(a, ka, k) == has_key(b, kb, k),
{
    if has_key(a, ka, k) {
        let i = choose|i: int| 0 <= i < a.len() && ka(a[i]) == k;
        assert(kb(b[i]) == k);
    }
    if has_key(b, kb, k) {
        let i = choose|i: int| 0 <= i < b.len() && kb(b[i]) == k;
        assert(ka(a[i]) == k);
    }
}

/// Two sequences whose elements have, position by position, the same keys keep the same
/// keys, in the same order, when only the first of each key is kept.
pub proof fn lemma_first_by_pointwise<A, B, K>(a: Seq<A>, ka: spec_fn(A) -> K, b: Seq<B>, kb: spec_fn(B) -> K)
    requires
        a.len() == b.len(),
        forall|i: int| 0 <= i < a.len() ==> ka(a[i]) == kb(b[i]),
    ensures
        first_by(a, ka).map_values(ka) == first_by(b, kb).map_values(kb),
    decreases a.len(),
{
    if a.len() > 0 {
        let ta = a.drop_last();
        let tb = b.drop_last();
        assert forall|i: int| 0 <= i < ta.len() implies ka(ta[i]) == kb(tb[i]) by {
            assert(ta[i] == a[i] && tb[i] == b[i]);
        }
        lemma_first_by_pointwise(ta, ka, tb, kb);
        assert(ka(a.last()) == kb(b.last()));
        lemma_has_key_map(ta, ka, ka(a.last()));
        lemma_has_key_map(tb, kb, kb(b.last()));
        lemma_has_key_pointwise(ta, ka, tb, kb, ka(a.last()));
        if !ta.map_values(ka).contains(ka(a.last())) {
            assert(first_by(a, ka).map_values(ka) =~= first_by(ta, ka).map_values(ka).push(ka(a.last())));
            assert(first_by(b, kb).map_values(kb) =~= first_by(tb, kb).map_values(kb).push(kb(b.last())));
        }
    }
}

} // verus!
