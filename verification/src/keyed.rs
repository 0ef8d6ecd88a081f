//! Documents in a sequence, found by keys that no two of them share.

use vstd::prelude::*;

verus! {

/// No two documents of the sequence have the same key.
pub open spec fn distinct_keys<T, K>(docs: Seq<T>, key: spec_fn(T) -> K) -> bool {
    forall|i: int, j: int| 0 <= i < j < docs.len() ==> key(#[trigger] docs[i]) != key(#[trigger] docs[j])
}

/// Some document of the sequence has the key `k`.
pub open spec fn has_key<T, K>(docs: Seq<T>, key: spec_fn(T) -> K, k: K) -> bool {
    exists|i: int| 0 <= i < docs.len() && key(#[trigger] docs[i]) == k
}

/// The place of a document with the key `k`; meaningful where one exists.
pub open spec fn place_of<T, K>(docs: Seq<T>, key: spec_fn(T) -> K, k: K) -> int {
    choose|i: int| 0 <= i < docs.len() && key(#[trigger] docs[i]) == k
}

/// The documents as a map from each key to what `value` makes of its document.
pub open spec fn keyed<T, K, V>(docs: Seq<T>, key: spec_fn(T) -> K, value: spec_fn(T) -> V) -> Map<
    K,
    V,
> {
    Map::new(|k: K| has_key(docs, key, k), |k: K| value(docs[place_of(docs, key, k)]))
}

/// With distinct keys, the map holds each document under its own key.
pub proof fn lemma_keyed_at<T, K, V>(
    docs: Seq<T>,
    key: spec_fn(T) -> K,
    value: spec_fn(T) -> V,
    i: int,
)
    requires
        distinct_keys(docs, key),
        0 <= i < docs.len(),
    ensures
        keyed(docs, key, value).contains_key(key(docs[i])),
        keyed(docs, key, value)[key(docs[i])] == value(docs[i]),
        place_of(docs, key, key(docs[i])) == i,
{
    let k = key(docs[i]);
    assert(has_key(docs, key, k));
    let p = place_of(docs, key, k);
    assert(0 <= p < docs.len() && key(docs[p]) == k);
    if p != i {
        if p < i {
            assert(key(docs[p]) != key(docs[i]));
        } else {
            assert(key(docs[i]) != key(docs[p]));
        }
    }
}

/// Appending a document with a new key inserts it into the map.
pub proof fn lemma_keyed_push<T, K, V>(
    docs: Seq<T>,
    key: spec_fn(T) -> K,
    value: spec_fn(T) -> V,
    doc: T,
)
    requires
        distinct_keys(docs, key),
        !has_key(docs, key, key(doc)),
    ensures
        distinct_keys(docs.push(doc), key),
        keyed(docs.push(doc), key, value) == keyed(docs, key, value).insert(key(doc), value(doc)),
{
    let after = docs.push(doc);
    assert forall|i: int, j: int| 0 <= i < j < after.len() implies key(#[trigger] after[i]) != key(
        #[trigger] after[j],
    ) by {
        if j == docs.len() {
            assert(after[i] == docs[i]);
            if key(docs[i]) == key(doc) {
                assert(has_key(docs, key, key(doc)));
            }
        } else {
            assert(after[i] == docs[i] && after[j] == docs[j]);
        }
    }
    let left = keyed(after, key, value);
    let right = keyed(docs, key, value).insert(key(doc), value(doc));
    assert forall|k: K| left.contains_key(k) <==> right.contains_key(k) by {
        if left.contains_key(k) {
            let p = place_of(after, key, k);
            assert(0 <= p < after.len() && key(after[p]) == k);
            if p < docs.len() {
                assert(after[p] == docs[p]);
                assert(has_key(docs, key, k));
            }
        }
        if right.contains_key(k) {
            if k == key(doc) {
                assert(after[docs.len() as int] == doc);
                assert(has_key(after, key, k));
            } else {
                let p = place_of(docs, key, k);
                assert(0 <= p < docs.len() && key(docs[p]) == k);
                assert(after[p] == docs[p]);
                assert(has_key(after, key, k));
            }
        }
    }
    assert forall|k: K| left.contains_key(k) implies left[k] == right[k] by {
        let p = place_of(after, key, k);
        assert(0 <= p < after.len() && key(after[p]) == k);
        lemma_keyed_at(after, key, value, p);
        if p < docs.len() {
            assert(after[p] == docs[p]);
            lemma_keyed_at(docs, key, value, p);
            assert(k != key(doc)) by {
                if k == key(doc) {
                    assert(has_key(docs, key, key(doc)));
                }
            }
        }
    }
    assert(left =~= right);
}

/// Taking a document out removes its key from the map.
pub proof fn lemma_keyed_remove<T, K, V>(
    docs: Seq<T>,
    key: spec_fn(T) -> K,
    value: spec_fn(T) -> V,
    i: int,
)
    requires
        distinct_keys(docs, key),
        0 <= i < docs.len(),
    ensures
        distinct_keys(docs.remove(i), key),
        keyed(docs.remove(i), key, value) == keyed(docs, key, value).remove(key(docs[i])),
{
    let after = docs.remove(i);
    assert forall|a: int, b: int| 0 <= a < b < after.len() implies key(#[trigger] after[a]) != key(
        #[trigger] after[b],
    ) by {
        let a0 = if a < i { a } else { a + 1 };
        let b0 = if b < i { b } else { b + 1 };
        assert(after[a] == docs[a0] && after[b] == docs[b0]);
    }
    let left = keyed(after, key, value);
    let right = keyed(docs, key, value).remove(key(docs[i]));
    assert forall|k: K| left.contains_key(k) <==> right.contains_key(k) by {
        if left.contains_key(k) {
            let p = place_of(after, key, k);
            assert(0 <= p < after.len() && key(after[p]) == k);
            let origin = if p < i { p } else { p + 1 };
            assert(after[p] == docs[origin]);
            assert(has_key(docs, key, k));
            if origin < i {
                assert(key(docs[origin]) != key(docs[i]));
            } else {
                assert(key(docs[i]) != key(docs[origin]));
            }
        }
        if right.contains_key(k) {
            let p = place_of(docs, key, k);
            assert(0 <= p < docs.len() && key(docs[p]) == k);
            let q = if p < i { p } else { p - 1 };
            assert(after[q] == docs[p]);
            assert(has_key(after, key, k));
        }
    }
    assert forall|k: K| left.contains_key(k) implies left[k] == right[k] by {
        let p = place_of(after, key, k);
        assert(0 <= p < after.len() && key(after[p]) == k);
        lemma_keyed_at(after, key, value, p);
        let origin = if p < i { p } else { p + 1 };
        assert(after[p] == docs[origin]);
        lemma_keyed_at(docs, key, value, origin);
    }
    assert(left =~= right);
}

/// Replacing a document by one with the same key replaces its value in the map.
pub proof fn lemma_keyed_update<T, K, V>(
    docs: Seq<T>,
    key: spec_fn(T) -> K,
    value: spec_fn(T) -> V,
    i: int,
    doc: T,
)
    requires
        distinct_keys(docs, key),
        0 <= i < docs.len(),
        key(doc) == key(docs[i]),
    ensures
        distinct_keys(docs.update(i, doc), key),
        keyed(docs.update(i, doc), key, value) == keyed(docs, key, value).insert(
            key(doc),
            value(doc),
        ),
{
    let after = docs.update(i, doc);
    assert forall|a: int, b: int| 0 <= a < b < after.len() implies key(#[trigger] after[a]) != key(
        #[trigger] after[b],
    ) by {
        assert(key(after[a]) == key(docs[a]) && key(after[b]) == key(docs[b]));
        assert(key(docs[a]) != key(docs[b]));
    }
    let left = keyed(after, key, value);
    let right = keyed(docs, key, value).insert(key(doc), value(doc));
    assert forall|k: K| left.contains_key(k) <==> right.contains_key(k) by {
        if left.contains_key(k) {
            let p = place_of(after, key, k);
            assert(0 <= p < after.len() && key(after[p]) == k);
            assert(key(after[p]) == key(docs[p]));
            assert(has_key(docs, key, k));
        }
        if right.contains_key(k) {
            if k == key(doc) {
                assert(after[i] == doc);
                assert(has_key(after, key, k));
            } else {
                let p = place_of(docs, key, k);
                assert(0 <= p < docs.len() && key(docs[p]) == k);
                assert(after[p] == docs[p]);
                assert(has_key(after, key, k));
            }
        }
    }
    assert forall|k: K| left.contains_key(k) implies left[k] == right[k] by {
        let p = place_of(after, key, k);
        assert(0 <= p < after.len() && key(after[p]) == k);
        lemma_keyed_at(after, key, value, p);
        if p != i {
            assert(after[p] == docs[p]);
            lemma_keyed_at(docs, key, value, p);
            if p < i {
                assert(key(docs[p]) != key(docs[i]));
            } else {
                assert(key(docs[i]) != key(docs[p]));
            }
        }
    }
    assert(left =~= right);
}

} // verus!
