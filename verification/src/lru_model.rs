//! Mathematical model of a bounded least-recently-used store.
//!
//! A store is modelled as a sequence of key-value entries ordered by
//! recency, most recently used first. Reading an entry moves it to the
//! front (`promote`); writing puts the new entry at the front, replacing
//! an entry with an equal key, and at capacity the last entry — the one
//! unused for the longest time — leaves (`insert_entry`).

use vstd::prelude::*;

verus! {

/// Position of the first entry with key `k`, or -1 if no entry has it.
pub open spec fn find_entry<K, V>(s: Seq<(K, V)>, k: K) -> int
    decreases s.len(),
{
    if s.len() == 0 {
        -1
    } else if s[0].0 == k {
        0
    } else {
        let r = find_entry(s.drop_first(), k);
        if r < 0 {
            -1
        } else {
            r + 1
        }
    }
}

/// Whether some entry has key `k`.
pub open spec fn has_entry<K, V>(s: Seq<(K, V)>, k: K) -> bool {
    find_entry(s, k) >= 0
}

/// The value stored under `k`, if any.
pub open spec fn lookup<K, V>(s: Seq<(K, V)>, k: K) -> Option<V> {
    if has_entry(s, k) {
        Some(s[find_entry(s, k)].1)
    } else {
        None
    }
}

/// The recency order after the entry at `i` is used: it moves to the
/// front, everything else keeps its relative order.
pub open spec fn promote<K, V>(s: Seq<(K, V)>, i: int) -> Seq<(K, V)>
    recommends
        0 <= i < s.len(),
{
    seq![s[i]] + s.subrange(0, i) + s.subrange(i + 1, s.len() as int)
}

/// The recency order after `(k, v)` is written: an entry with the same
/// key is replaced; at capacity the least recently used entry leaves.
pub open spec fn insert_entry<K, V>(s: Seq<(K, V)>, cap: nat, k: K, v: V) -> Seq<(K, V)> {
    let rest = if find_entry(s, k) >= 0 {
        s.remove(find_entry(s, k))
    } else {
        s
    };
    let kept = if rest.len() >= cap {
        rest.subrange(0, cap as int - 1)
    } else {
        rest
    };
    seq![(k, v)] + kept
}

/// No two entries share a key.
pub open spec fn distinct_keys<K, V>(s: Seq<(K, V)>) -> bool {
    forall|i: int, j: int| 0 <= i < j < s.len() ==> s[i].0 != s[j].0
}

/// `find_entry` points at the first entry holding the key, and fails
/// only when no entry holds it.
pub proof fn lemma_find_entry<K, V>(s: Seq<(K, V)>, k: K)
    ensures
        find_entry(s, k) >= 0 ==> 0 <= find_entry(s, k) < s.len() && s[find_entry(s, k)].0 == k
            && (forall|j: int| 0 <= j < find_entry(s, k) ==> s[j].0 != k),
        find_entry(s, k) < 0 ==> forall|j: int| 0 <= j < s.len() ==> s[j].0 != k,
    decreases s.len(),
{
    if s.len() == 0 {
    } else if s[0].0 == k {
    } else {
        let t = s.drop_first();
        lemma_find_entry(t, k);
        let r = find_entry(t, k);
        if r >= 0 {
            assert(t[r] == s[r + 1]);
            assert forall|j: int| 0 <= j < find_entry(s, k) implies s[j].0 != k by {
                if j > 0 {
                    assert(t[j - 1] == s[j]);
                }
            }
        } else {
            assert forall|j: int| 0 <= j < s.len() implies s[j].0 != k by {
                if j > 0 {
                    assert(t[j - 1] == s[j]);
                }
            }
        }
    }
}

/// With distinct keys, any entry is found exactly where it stands.
pub proof fn lemma_find_entry_unique<K, V>(s: Seq<(K, V)>, i: int)
    requires
        distinct_keys(s),
        0 <= i < s.len(),
    ensures
        find_entry(s, s[i].0) == i,
        lookup(s, s[i].0) == Some(s[i].1),
{
    lemma_find_entry(s, s[i].0);
    let f = find_entry(s, s[i].0);
    if f < 0 {
        assert(s[i].0 != s[i].0);
    }
    if f != i {
        assert(s[f].0 == s[i].0);
    }
}

/// A key held by no entry has no value.
pub proof fn lemma_lookup_absent<K, V>(s: Seq<(K, V)>, k: K)
    requires
        forall|j: int| 0 <= j < s.len() ==> s[j].0 != k,
    ensures
        lookup(s, k) is None,
{
    lemma_find_entry(s, k);
    if find_entry(s, k) >= 0 {
        assert(s[find_entry(s, k)].0 == k);
    }
}

/// Where each entry of `promote(s, i)` comes from in `s`.
pub open spec fn promote_src(i: int, j: int) -> int {
    if j == 0 {
        i
    } else if j <= i {
        j - 1
    } else {
        j
    }
}

/// `promote` rearranges the entries: entry `j` of the result is entry
/// `promote_src(i, j)` of the input.
pub proof fn lemma_promote_entries<K, V>(s: Seq<(K, V)>, i: int)
    requires
        0 <= i < s.len(),
    ensures
        promote(s, i).len() == s.len(),
        forall|j: int| 0 <= j < s.len()
            ==> #[trigger] promote(s, i)[j] == s[promote_src(i, j)]
                && 0 <= promote_src(i, j) < s.len(),
{
    let p = promote(s, i);
    assert forall|j: int| 0 <= j < s.len()
        implies #[trigger] p[j] == s[promote_src(i, j)] && 0 <= promote_src(i, j) < s.len() by {
        if j == 0 {
        } else if j <= i {
            assert(p[j] == s.subrange(0, i)[j - 1]);
        } else {
            assert(p[j] == s.subrange(i + 1, s.len() as int)[j - i - 1]);
        }
    }
}

/// Using an entry keeps the keys distinct and every association intact.
pub proof fn lemma_promote_preserves<K, V>(s: Seq<(K, V)>, i: int)
    requires
        distinct_keys(s),
        0 <= i < s.len(),
    ensures
        promote(s, i).len() == s.len(),
        distinct_keys(promote(s, i)),
        forall|k: K| #[trigger] lookup(promote(s, i), k) == lookup(s, k),
{
    let p = promote(s, i);
    lemma_promote_entries(s, i);
    assert forall|a: int, b: int| 0 <= a < b < p.len() implies p[a].0 != p[b].0 by {
        assert(promote_src(i, a) != promote_src(i, b));
    }
    assert forall|k: K| #[trigger] lookup(p, k) == lookup(s, k) by {
        lemma_find_entry(s, k);
        if find_entry(s, k) >= 0 {
            let f = find_entry(s, k);
            let fj = if f == i { 0 } else if f < i { f + 1 } else { f };
            assert(promote_src(i, fj) == f);
            assert(p[fj] == s[f]);
            lemma_find_entry_unique(p, fj);
        } else {
            assert(forall|j: int| 0 <= j < p.len() ==> #[trigger] p[j].0 != k);
            lemma_lookup_absent(p, k);
        }
    }
}

/// Writing keeps the keys distinct, respects the capacity, and stores
/// the written value under its key.
pub proof fn lemma_insert_preserves<K, V>(s: Seq<(K, V)>, cap: nat, k: K, v: V)
    requires
        distinct_keys(s),
        s.len() <= cap,
        cap >= 1,
    ensures
        distinct_keys(insert_entry(s, cap, k, v)),
        insert_entry(s, cap, k, v).len() <= cap,
        lookup(insert_entry(s, cap, k, v), k) == Some(v),
{
    let out = insert_entry(s, cap, k, v);
    lemma_find_entry(s, k);
    let rest = if find_entry(s, k) >= 0 {
        s.remove(find_entry(s, k))
    } else {
        s
    };
    assert(forall|j: int| 0 <= j < rest.len() ==> #[trigger] rest[j].0 != k) by {
        if find_entry(s, k) >= 0 {
            let f = find_entry(s, k);
            assert forall|j: int| 0 <= j < rest.len() implies #[trigger] rest[j].0 != k by {
                if j < f {
                    assert(rest[j] == s[j]);
                } else {
                    assert(rest[j] == s[j + 1]);
                }
            }
        }
    }
    assert(distinct_keys(rest)) by {
        if find_entry(s, k) >= 0 {
            let f = find_entry(s, k);
            assert forall|a: int, b: int| 0 <= a < b < rest.len() implies rest[a].0 != rest[b].0 by {
                let a0 = if a < f { a } else { a + 1 };
                let b0 = if b < f { b } else { b + 1 };
                assert(rest[a] == s[a0] && rest[b] == s[b0]);
            }
        }
    }
    let kept = if rest.len() >= cap {
        rest.subrange(0, cap as int - 1)
    } else {
        rest
    };
    assert(forall|j: int| 0 <= j < kept.len() ==> #[trigger] kept[j] == rest[j]);
    assert forall|a: int, b: int| 0 <= a < b < out.len() implies out[a].0 != out[b].0 by {
        if a == 0 {
            assert(out[b] == kept[b - 1]);
        } else {
            assert(out[a] == kept[a - 1] && out[b] == kept[b - 1]);
        }
    }
    assert(out[0] == (k, v));
    assert(lookup(out, k) == Some(v));
}

/// The bound holds by displacement: writing a fresh key into a full
/// store keeps the newest entries and drops exactly the one unused for
/// the longest time, which is then no longer found.
pub proof fn lemma_insert_evicts_lru<K, V>(s: Seq<(K, V)>, cap: nat, k: K, v: V)
    requires
        distinct_keys(s),
        s.len() == cap,
        cap >= 1,
        !has_entry(s, k),
    ensures
        insert_entry(s, cap, k, v).len() == cap,
        lookup(insert_entry(s, cap, k, v), k) == Some(v),
        forall|j: int| 0 <= j < cap - 1 ==> #[trigger] insert_entry(s, cap, k, v)[j + 1] == s[j],
        lookup(insert_entry(s, cap, k, v), s[cap as int - 1].0) is None,
{
    let out = insert_entry(s, cap, k, v);
    lemma_find_entry(s, k);
    lemma_insert_preserves(s, cap, k, v);
    let evicted = s[cap as int - 1].0;
    assert forall|j: int| 0 <= j < out.len() implies #[trigger] out[j].0 != evicted by {
        if j == 0 {
            assert(s[cap as int - 1].0 != k);
        } else {
            assert(out[j] == s[j - 1]);
        }
    }
    lemma_lookup_absent(out, evicted);
}

/// Every entry after a write is the written pair or one of the old
/// entries.
pub proof fn lemma_insert_entry_source<K, V>(s: Seq<(K, V)>, cap: nat, k: K, v: V)
    requires
        cap >= 1,
    ensures
        insert_entry(s, cap, k, v).len() >= 1,
        insert_entry(s, cap, k, v)[0] == (k, v),
        forall|j: int|
            1 <= j < insert_entry(s, cap, k, v).len() ==> exists|m: int|
                0 <= m < s.len() && #[trigger] insert_entry(s, cap, k, v)[j] == s[m],
{
    let out = insert_entry(s, cap, k, v);
    let rest = if find_entry(s, k) >= 0 {
        s.remove(find_entry(s, k))
    } else {
        s
    };
    lemma_find_entry(s, k);
    assert forall|j: int| 1 <= j < out.len() implies exists|m: int|
        0 <= m < s.len() && #[trigger] out[j] == s[m] by {
        let jr = j - 1;
        assert(out[j] == rest[jr]);
        if find_entry(s, k) >= 0 {
            let f = find_entry(s, k);
            let m = if jr < f {
                jr
            } else {
                jr + 1
            };
            assert(rest[jr] == s[m]);
        } else {
            assert(rest[jr] == s[jr]);
        }
    }
}

/// Writing under one key leaves every other key's value as it was,
/// as long as nothing had to be evicted.
pub proof fn lemma_insert_existing_lookup<K, V>(s: Seq<(K, V)>, cap: nat, k: K, v: V, k2: K)
    requires
        distinct_keys(s),
        s.len() <= cap,
        cap >= 1,
        has_entry(s, k),
        k2 != k,
    ensures
        lookup(insert_entry(s, cap, k, v), k2) == lookup(s, k2),
{
    let out = insert_entry(s, cap, k, v);
    lemma_find_entry(s, k);
    let f = find_entry(s, k);
    let rest = s.remove(f);
    assert(rest.len() < cap);
    assert(out == seq![(k, v)] + rest);
    assert(forall|j: int| 0 <= j < rest.len()
        ==> #[trigger] rest[j] == (if j < f { s[j] } else { s[j + 1] }));
    lemma_insert_preserves(s, cap, k, v);
    lemma_find_entry(s, k2);
    if find_entry(s, k2) >= 0 {
        let f2 = find_entry(s, k2);
        assert(f2 != f);
        let j2 = if f2 < f { f2 } else { f2 - 1 };
        assert(rest[j2] == s[f2]);
        assert(out[j2 + 1] == s[f2]);
        lemma_find_entry_unique(s, f2);
        lemma_find_entry_unique(out, j2 + 1);
    } else {
        assert forall|j: int| 0 <= j < out.len() implies #[trigger] out[j].0 != k2 by {
            if j > 0 {
                assert(out[j] == rest[j - 1]);
            }
        }
        lemma_lookup_absent(out, k2);
        lemma_lookup_absent(s, k2);
    }
}

} // verus!
