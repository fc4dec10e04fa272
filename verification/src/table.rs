//! Sequences read as finite maps: each element carries a key, and no key
//! occurs twice.

use vstd::prelude::*;

verus! {

/// No two elements of `s` have the same key.
pub open spec fn distinct_keys<T, K>(s: Seq<T>, key: spec_fn(T) -> K) -> bool {
    forall|i: int, j: int| 0 <= i < j < s.len() ==> key(#[trigger] s[i]) != key(#[trigger] s[j])
}

/// Some element of `s` has the key `k`.
pub open spec fn has_key<T, K>(s: Seq<T>, key: spec_fn(T) -> K, k: K) -> bool {
    exists|i: int| 0 <= i < s.len() && key(#[trigger] s[i]) == k
}

/// The position of an element with the key `k`.
pub open spec fn slot<T, K>(s: Seq<T>, key: spec_fn(T) -> K, k: K) -> int {
    choose|i: int| 0 <= i < s.len() && key(#[trigger] s[i]) == k
}

/// No element of `s` has the key `k`.
pub open spec fn lacks_key<T, K>(s: Seq<T>, key: spec_fn(T) -> K, k: K) -> bool {
    forall|i: int| 0 <= i < s.len() ==> key(#[trigger] s[i]) != k
}

/// The map from each key in `s` to the value of the element that has it.
pub open spec fn table<T, K, V>(s: Seq<T>, key: spec_fn(T) -> K, val: spec_fn(T) -> V) -> Map<
    K,
    V,
> {
    Map::new(|k: K| has_key(s, key, k), |k: K| val(s[slot(s, key, k)]))
}

/// The element at position `i` is what the table holds under its key.
pub proof fn lemma_table_at<T, K, V>(
    s: Seq<T>,
    key: spec_fn(T) -> K,
    val: spec_fn(T) -> V,
    i: int,
)
    requires
        distinct_keys(s, key),
        0 <= i < s.len(),
    ensures
        table(s, key, val).contains_key(key(s[i])),
        table(s, key, val)[key(s[i])] == val(s[i]),
{
    let k = key(s[i]);
    assert(has_key(s, key, k));
    let j = slot(s, key, k);
    assert(0 <= j < s.len() && key(s[j]) == k);
    if j != i {
        if j < i {
            assert(key(s[j]) != key(s[i]));
        } else {
            assert(key(s[i]) != key(s[j]));
        }
    }
}

/// A key that no element has is not in the table.
pub proof fn lemma_table_lacks<T, K, V>(
    s: Seq<T>,
    key: spec_fn(T) -> K,
    val: spec_fn(T) -> V,
    k: K,
)
    requires
        lacks_key(s, key, k),
    ensures
        !table(s, key, val).contains_key(k),
{
    if has_key(s, key, k) {
        let i = slot(s, key, k);
        assert(key(s[i]) == k);
    }
}

/// Appending an element with a new key inserts it into the table.
pub proof fn lemma_table_push<T, K, V>(
    s: Seq<T>,
    key: spec_fn(T) -> K,
    val: spec_fn(T) -> V,
    x: T,
)
    requires
        distinct_keys(s, key),
        lacks_key(s, key, key(x)),
    ensures
        distinct_keys(s.push(x), key),
        table(s.push(x), key, val) =~= table(s, key, val).insert(key(x), val(x)),
{
    let t = s.push(x);
    assert forall|i: int, j: int| 0 <= i < j < t.len() implies key(#[trigger] t[i]) != key(
        #[trigger] t[j],
    ) by {
        if j < s.len() {
            assert(key(s[i]) != key(s[j]));
        } else {
            assert(key(s[i]) != key(x));
        }
    }
    let before = table(s, key, val);
    let after = table(t, key, val);
    let want = before.insert(key(x), val(x));
    assert forall|k: K| after.contains_key(k) <==> want.contains_key(k) by {
        if after.contains_key(k) {
            let i = slot(t, key, k);
            assert(key(t[i]) == k);
            if i < s.len() {
                assert(key(s[i]) == k);
            }
        }
        if want.contains_key(k) {
            if k == key(x) {
                assert(key(t[s.len() as int]) == k);
            } else {
                let i = slot(s, key, k);
                assert(key(s[i]) == k);
                assert(key(t[i]) == k);
            }
        }
    }
    assert forall|k: K| after.contains_key(k) implies after[k] == want[k] by {
        let i = slot(t, key, k);
        assert(key(t[i]) == k);
        lemma_table_at(t, key, val, i);
        if i < s.len() {
            assert(key(s[i]) == k);
            lemma_table_at(s, key, val, i);
        }
    }
}

/// Replacing an element by one with the same key updates the table there.
pub proof fn lemma_table_update<T, K, V>(
    s: Seq<T>,
    key: spec_fn(T) -> K,
    val: spec_fn(T) -> V,
    i: int,
    x: T,
)
    requires
        distinct_keys(s, key),
        0 <= i < s.len(),
        key(x) == key(s[i]),
    ensures
        distinct_keys(s.update(i, x), key),
        table(s.update(i, x), key, val) =~= table(s, key, val).insert(key(x), val(x)),
{
    let t = s.update(i, x);
    assert forall|a: int, b: int| 0 <= a < b < t.len() implies key(#[trigger] t[a]) != key(
        #[trigger] t[b],
    ) by {
        assert(key(s[a]) != key(s[b]));
    }
    let before = table(s, key, val);
    let after = table(t, key, val);
    let want = before.insert(key(x), val(x));
    assert forall|k: K| after.contains_key(k) <==> want.contains_key(k) by {
        if after.contains_key(k) {
            let j = slot(t, key, k);
            assert(key(t[j]) == k);
            assert(key(s[j]) == k);
        }
        if want.contains_key(k) {
            if k == key(x) {
                assert(key(t[i]) == k);
            } else {
                let j = slot(s, key, k);
                assert(key(s[j]) == k);
                assert(key(t[j]) == k);
            }
        }
    }
    assert forall|k: K| after.contains_key(k) implies after[k] == want[k] by {
        let j = slot(t, key, k);
        assert(key(t[j]) == k);
        lemma_table_at(t, key, val, j);
        if j != i {
            assert(key(s[j]) == k);
            lemma_table_at(s, key, val, j);
        }
    }
}

} // verus!
