//! Association sequences: the spec-level view of small key-value tables
//! kept in vectors of pairs with unique keys.

use vstd::prelude::*;

verus! {

/// Whether some pair of the sequence carries this key.
pub open spec fn al_has<K, V>(s: Seq<(K, V)>, k: K) -> bool {
    exists|i: int| 0 <= i < s.len() && s[i].0 == k
}

/// The position of a key; meaningful only under `al_has`.
pub open spec fn al_at<K, V>(s: Seq<(K, V)>, k: K) -> int {
    choose|i: int| 0 <= i < s.len() && s[i].0 == k
}

/// The value stored for a key; meaningful only under `al_has`.
pub open spec fn al_get<K, V>(s: Seq<(K, V)>, k: K) -> V {
    s[al_at(s, k)].1
}

/// No key occurs twice.
pub open spec fn al_unique<K, V>(s: Seq<(K, V)>) -> bool {
    forall|i: int, j: int| 0 <= i < j < s.len() ==> (#[trigger] s[i]).0 != (#[trigger] s[j]).0
}

/// The sequence with `k` bound to `v`: updated in place when present,
/// appended otherwise.
pub open spec fn al_insert<K, V>(s: Seq<(K, V)>, k: K, v: V) -> Seq<(K, V)> {
    if al_has(s, k) {
        s.update(al_at(s, k), (k, v))
    } else {
        s.push((k, v))
    }
}

/// The sequence with any binding of `k` removed.
pub open spec fn al_remove<K, V>(s: Seq<(K, V)>, k: K) -> Seq<(K, V)> {
    if al_has(s, k) {
        s.remove(al_at(s, k))
    } else {
        s
    }
}

/// In a sequence with unique keys, the key found at a position is the
/// position that lookup names.
pub proof fn lemma_al_at<K, V>(s: Seq<(K, V)>, i: int)
    requires
        al_unique(s),
        0 <= i < s.len(),
    ensures
        al_has(s, s[i].0),
        al_at(s, s[i].0) == i,
{
    assert(al_has(s, s[i].0));
    let w = al_at(s, s[i].0);
    if w < i {
        assert(s[w].0 != s[i].0);
    }
    if i < w {
        assert(s[i].0 != s[w].0);
    }
}

/// What `al_insert` leaves bound: the inserted key maps to the new
/// value, every other key keeps its binding, and uniqueness is kept.
pub proof fn lemma_al_insert<K, V>(s: Seq<(K, V)>, k: K, v: V)
    requires
        al_unique(s),
    ensures
        al_unique(al_insert(s, k, v)),
        al_has(al_insert(s, k, v), k),
        al_get(al_insert(s, k, v), k) == v,
        forall|k2: K| k2 != k ==> al_has(al_insert(s, k, v), k2) == al_has(s, k2),
        forall|k2: K| k2 != k && al_has(s, k2)
            ==> al_get(al_insert(s, k, v), k2) == al_get(s, k2),
        forall|i: int| 0 <= i < al_insert(s, k, v).len()
            ==> (#[trigger] al_insert(s, k, v)[i]).1 == v
                || exists|j: int| 0 <= j < s.len() && s[j].1 == al_insert(s, k, v)[i].1,
{
    let t = al_insert(s, k, v);
    assert forall|i: int| 0 <= i < t.len() implies (#[trigger] t[i]).1 == v
        || exists|j: int| 0 <= j < s.len() && s[j].1 == t[i].1 by {
        if al_has(s, k) {
            if i != al_at(s, k) {
                assert(s[i].1 == t[i].1);
            }
        } else {
            if i < s.len() {
                assert(s[i].1 == t[i].1);
            }
        }
    }
    if al_has(s, k) {
        let i = al_at(s, k);
        assert(t == s.update(i, (k, v)));
        assert forall|a: int, b: int| 0 <= a < b < t.len() implies (#[trigger] t[a]).0
            != (#[trigger] t[b]).0 by {
            assert(s[a].0 != s[b].0);
            assert(s[i].0 == k);
        }
        lemma_al_at(t, i);
        assert forall|k2: K| k2 != k implies al_has(t, k2) == al_has(s, k2) by {
            if al_has(s, k2) {
                let j = al_at(s, k2);
                assert(t[j].0 == k2);
            }
            if al_has(t, k2) {
                let j = al_at(t, k2);
                assert(s[j].0 == k2);
            }
        }
        assert forall|k2: K| k2 != k && al_has(s, k2) implies al_get(t, k2) == al_get(s, k2) by {
            let j = al_at(s, k2);
            assert(s[j].0 == k2);
            assert(t[j].0 == k2);
            lemma_al_at(t, j);
        }
    } else {
        assert(t == s.push((k, v)));
        assert forall|a: int, b: int| 0 <= a < b < t.len() implies (#[trigger] t[a]).0
            != (#[trigger] t[b]).0 by {
            if b < s.len() {
                assert(s[a].0 != s[b].0);
            } else {
                assert(t[b].0 == k);
                assert(t[a] == s[a]);
                assert(al_has(s, s[a].0));
            }
        }
        lemma_al_at(t, s.len() as int);
        assert forall|k2: K| k2 != k implies al_has(t, k2) == al_has(s, k2) by {
            if al_has(s, k2) {
                let j = al_at(s, k2);
                assert(t[j].0 == k2);
            }
            if al_has(t, k2) {
                let j = al_at(t, k2);
                assert(j < s.len());
                assert(s[j].0 == k2);
            }
        }
        assert forall|k2: K| k2 != k && al_has(s, k2) implies al_get(t, k2) == al_get(s, k2) by {
            let j = al_at(s, k2);
            assert(s[j].0 == k2);
            assert(t[j].0 == k2);
            lemma_al_at(t, j);
        }
    }
}

/// What `al_remove` leaves bound: the removed key is gone, every other
/// key keeps its binding, and uniqueness is kept.
pub proof fn lemma_al_remove<K, V>(s: Seq<(K, V)>, k: K)
    requires
        al_unique(s),
    ensures
        al_unique(al_remove(s, k)),
        !al_has(al_remove(s, k), k),
        forall|k2: K| k2 != k ==> al_has(al_remove(s, k), k2) == al_has(s, k2),
        forall|k2: K| k2 != k && al_has(s, k2)
            ==> al_get(al_remove(s, k), k2) == al_get(s, k2),
{
    if al_has(s, k) {
        let i = al_at(s, k);
        let t = s.remove(i);
        assert forall|a: int, b: int| 0 <= a < b < t.len() implies (#[trigger] t[a]).0
            != (#[trigger] t[b]).0 by {
            if a < i && b < i {
                assert(s[a].0 != s[b].0);
            } else if a < i {
                assert(s[a].0 != s[b + 1].0);
            } else {
                assert(s[a + 1].0 != s[b + 1].0);
            }
        }
        assert forall|j: int| 0 <= j < t.len() implies (#[trigger] t[j]).0 != k by {
            if j < i {
                assert(t[j] == s[j]);
                if s[j].0 == k {
                    lemma_al_at(s, j);
                }
            } else {
                assert(t[j] == s[j + 1]);
                if s[j + 1].0 == k {
                    lemma_al_at(s, j + 1);
                }
            }
        }
        assert forall|k2: K| k2 != k implies al_has(t, k2) == al_has(s, k2) by {
            if al_has(s, k2) {
                let j = al_at(s, k2);
                if j < i {
                    assert(t[j].0 == k2);
                } else {
                    assert(s[i].0 == k);
                    assert(t[j - 1].0 == k2);
                }
            }
            if al_has(t, k2) {
                let j = al_at(t, k2);
                if j < i {
                    assert(s[j].0 == k2);
                } else {
                    assert(s[j + 1].0 == k2);
                }
            }
        }
        assert forall|k2: K| k2 != k && al_has(s, k2) implies al_get(t, k2) == al_get(s, k2) by {
            let j = al_at(s, k2);
            assert(s[j].0 == k2);
            assert(s[i].0 == k);
            if j < i {
                assert(t[j].0 == k2);
                lemma_al_at(t, j);
            } else {
                assert(t[j - 1].0 == k2);
                lemma_al_at(t, j - 1);
            }
        }
    }
}

} // verus!
