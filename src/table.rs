//! Tables of amounts keyed by distinct keys, as sequences of entries.
//! A key without an entry stands for the amount 0.
use vstd::prelude::*;

verus! {

/// No key has two entries.
pub open spec fn keys_unique<K>(s: Seq<(K, u128)>) -> bool {
    forall|i: int, j: int|
        0 <= i < s.len() && 0 <= j < s.len() && #[trigger] s[i].0 == #[trigger] s[j].0 ==> i == j
}

/// Some entry holds the key.
pub open spec fn has_key<K>(s: Seq<(K, u128)>, k: K) -> bool {
    exists|i: int| 0 <= i < s.len() && #[trigger] s[i].0 == k
}

/// The amount recorded for a key, 0 where it has no entry.
pub open spec fn lookup<K>(s: Seq<(K, u128)>, k: K) -> nat {
    if has_key(s, k) {
        s[choose|i: int| 0 <= i < s.len() && #[trigger] s[i].0 == k].1 as nat
    } else {
        0
    }
}

/// The sum of all recorded amounts.
pub open spec fn total<K>(s: Seq<(K, u128)>) -> nat
    decreases s.len(),
{
    if s.len() == 0 {
        0
    } else {
        total(s.drop_last()) + s.last().1 as nat
    }
}

/// In a table with distinct keys, the amount of an entry's key is that entry's amount.
pub proof fn lemma_lookup_at<K>(s: Seq<(K, u128)>, i: int)
    requires
        keys_unique(s),
        0 <= i < s.len(),
    ensures
        lookup(s, s[i].0) == s[i].1 as nat,
{
    assert(has_key(s, s[i].0));
}

/// No single entry exceeds the sum of all entries.
pub proof fn lemma_entry_le_total<K>(s: Seq<(K, u128)>, i: int)
    requires
        0 <= i < s.len(),
    ensures
        s[i].1 as nat <= total(s),
    decreases s.len(),
{
    if i < s.len() - 1 {
        lemma_entry_le_total(s.drop_last(), i);
    }
}

/// No key's amount exceeds the sum of all entries.
pub proof fn lemma_lookup_le_total<K>(s: Seq<(K, u128)>, k: K)
    ensures
        lookup(s, k) <= total(s),
{
    if has_key(s, k) {
        let i = choose|i: int| 0 <= i < s.len() && #[trigger] s[i].0 == k;
        lemma_entry_le_total(s, i);
    }
}

/// Replacing the amount of one entry changes the sum by the difference.
pub proof fn lemma_total_update<K>(s: Seq<(K, u128)>, i: int, v: u128)
    requires
        0 <= i < s.len(),
    ensures
        total(s.update(i, (s[i].0, v))) + s[i].1 as nat == total(s) + v as nat,
    decreases s.len(),
{
    let t = s.update(i, (s[i].0, v));
    if i == s.len() - 1 {
        assert(t.drop_last() =~= s.drop_last());
    } else {
        assert(t.drop_last() =~= s.drop_last().update(i, (s[i].0, v)));
        lemma_total_update(s.drop_last(), i, v);
    }
}

/// Replacing the amount of one entry keeps the keys and changes that key's amount only.
pub proof fn lemma_update<K>(s: Seq<(K, u128)>, i: int, v: u128)
    requires
        keys_unique(s),
        0 <= i < s.len(),
    ensures
        keys_unique(s.update(i, (s[i].0, v))),
        forall|k: K| #[trigger]
            lookup(s.update(i, (s[i].0, v)), k) == if k == s[i].0 {
                v as nat
            } else {
                lookup(s, k)
            },
        total(s.update(i, (s[i].0, v))) + s[i].1 as nat == total(s) + v as nat,
{
    let t = s.update(i, (s[i].0, v));
    assert forall|a: int, b: int|
        0 <= a < t.len() && 0 <= b < t.len() && #[trigger] t[a].0 == #[trigger] t[b].0 implies a
        == b by {
        assert(t[a].0 == s[a].0 && t[b].0 == s[b].0);
    }
    assert forall|k: K| #[trigger]
        lookup(t, k) == if k == s[i].0 {
            v as nat
        } else {
            lookup(s, k)
        } by {
        if k == s[i].0 {
            lemma_lookup_at(t, i);
        } else if has_key(s, k) {
            let j = choose|j: int| 0 <= j < s.len() && #[trigger] s[j].0 == k;
            lemma_lookup_at(s, j);
            lemma_lookup_at(t, j);
        } else {
            assert(!has_key(t, k)) by {
                if has_key(t, k) {
                    let j = choose|j: int| 0 <= j < t.len() && #[trigger] t[j].0 == k;
                    assert(s[j].0 == k);
                }
            }
        }
    }
    lemma_total_update(s, i, v);
}

/// Appending an entry for a new key adds that key and its amount.
pub proof fn lemma_push<K>(s: Seq<(K, u128)>, k: K, v: u128)
    requires
        keys_unique(s),
        !has_key(s, k),
    ensures
        keys_unique(s.push((k, v))),
        forall|x: K| #[trigger]
            lookup(s.push((k, v)), x) == if x == k {
                v as nat
            } else {
                lookup(s, x)
            },
        total(s.push((k, v))) == total(s) + v as nat,
{
    let t = s.push((k, v));
    assert(t.drop_last() =~= s);
    assert forall|a: int, b: int|
        0 <= a < t.len() && 0 <= b < t.len() && #[trigger] t[a].0 == #[trigger] t[b].0 implies a
        == b by {
        if a < s.len() && b < s.len() {
            assert(s[a].0 == s[b].0);
        } else if a < s.len() {
            assert(s[a].0 == k);
        } else if b < s.len() {
            assert(s[b].0 == k);
        }
    }
    assert forall|x: K| #[trigger]
        lookup(t, x) == if x == k {
            v as nat
        } else {
            lookup(s, x)
        } by {
        if x == k {
            lemma_lookup_at(t, s.len() as int);
        } else if has_key(s, x) {
            let j = choose|j: int| 0 <= j < s.len() && #[trigger] s[j].0 == x;
            lemma_lookup_at(s, j);
            lemma_lookup_at(t, j);
        } else {
            assert(!has_key(t, x)) by {
                if has_key(t, x) {
                    let j = choose|j: int| 0 <= j < t.len() && #[trigger] t[j].0 == x;
                    if j < s.len() {
                        assert(s[j].0 == x);
                    }
                }
            }
        }
    }
}

} // verus!
