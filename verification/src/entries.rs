//! Keyed entry lists.
//!
//! The ledger stores its maps as vectors of `(key, value)` pairs with
//! unique keys: asset id to amount for balances, account id to position for
//! the position store. The first-match index is the spec-level handle every
//! contract speaks through.

use vstd::prelude::*;

verus! {

/// Index of the first entry with the given key, or -1 when absent.
pub open spec fn key_index<V>(s: Seq<(u32, V)>, key: u32) -> int
    decreases s.len(),
{
    if s.len() == 0 {
        -1
    } else if s[0].0 == key {
        0
    } else {
        let r = key_index(s.drop_first(), key);
        if r < 0 {
            -1
        } else {
            r + 1
        }
    }
}

pub open spec fn has_key<V>(s: Seq<(u32, V)>, key: u32) -> bool {
    key_index(s, key) >= 0
}

/// No two entries share a key.
pub open spec fn keys_unique<V>(s: Seq<(u32, V)>) -> bool {
    forall|i: int, j: int| 0 <= i < j < s.len() ==> s[i].0 != s[j].0
}

/// What `key_index` finds: a valid position holding the key, with no
/// earlier occurrence; or nothing, and then no entry holds the key.
pub proof fn lemma_key_index_props<V>(s: Seq<(u32, V)>, key: u32)
    ensures
        key_index(s, key) < 0 ==> key_index(s, key) == -1 && (forall|i: int|
            0 <= i < s.len() ==> s[i].0 != key),
        key_index(s, key) >= 0 ==> key_index(s, key) < s.len() && s[key_index(s, key)].0 == key
            && (forall|i: int| 0 <= i < key_index(s, key) ==> s[i].0 != key),
    decreases s.len(),
{
    if s.len() > 0 && s[0].0 != key {
        let sub = s.drop_first();
        lemma_key_index_props(sub, key);
        if key_index(s, key) < 0 {
            assert forall|i: int| 0 <= i < s.len() implies s[i].0 != key by {
                if i > 0 {
                    assert(sub[i - 1] == s[i]);
                    assert(sub[i - 1].0 != key);
                }
            }
        } else {
            let j = key_index(s, key);
            assert(key_index(sub, key) == j - 1);
            assert(sub[j - 1] == s[j]);
            assert forall|i: int| 0 <= i < j implies s[i].0 != key by {
                if i > 0 {
                    assert(sub[i - 1] == s[i]);
                    assert(sub[i - 1].0 != key);
                }
            }
        }
    }
}

/// Converse: an occurrence with a clear prefix is what `key_index` finds.
pub proof fn lemma_key_index_at<V>(s: Seq<(u32, V)>, key: u32, j: int)
    requires
        0 <= j < s.len(),
        s[j].0 == key,
        forall|i: int| 0 <= i < j ==> s[i].0 != key,
    ensures
        key_index(s, key) == j,
    decreases s.len(),
{
    if j > 0 {
        let sub = s.drop_first();
        assert forall|i: int| 0 <= i < j - 1 implies sub[i].0 != key by {
            assert(sub[i] == s[i + 1]);
        }
        assert(sub[j - 1] == s[j]);
        lemma_key_index_at(sub, key, j - 1);
    }
}

/// The value stored under a key, if any.
pub open spec fn value_of<V>(s: Seq<(u32, V)>, key: u32) -> Option<V> {
    if has_key(s, key) {
        Some(s[key_index(s, key)].1)
    } else {
        None
    }
}

/// The list after storing `value` under `key`: the entry is replaced in
/// place, or appended.
pub open spec fn spec_store<V>(s: Seq<(u32, V)>, key: u32, value: V) -> Seq<(u32, V)> {
    if has_key(s, key) {
        s.update(key_index(s, key), (key, value))
    } else {
        s.push((key, value))
    }
}

/// Storing writes exactly the named entry, keeps every other entry, and
/// preserves key uniqueness.
pub proof fn lemma_store_props<V>(s: Seq<(u32, V)>, key: u32, value: V)
    requires
        keys_unique(s),
    ensures
        keys_unique(spec_store(s, key, value)),
        value_of(spec_store(s, key, value), key) == Some(value),
        forall|k: u32|
            k != key ==> #[trigger] value_of(spec_store(s, key, value), k) == value_of(s, k),
{
    lemma_key_index_props(s, key);
    let t = spec_store(s, key, value);
    if has_key(s, key) {
        let j = key_index(s, key);
        lemma_key_index_at(t, key, j);
        assert forall|k: u32| k != key implies #[trigger] value_of(t, k) == value_of(s, k) by {
            lemma_key_index_props(s, k);
            lemma_key_index_props(t, k);
            if has_key(s, k) {
                let jk = key_index(s, k);
                assert(jk != j);
                assert(t[jk] == s[jk]);
                lemma_key_index_at(t, k, jk);
            } else if has_key(t, k) {
                let jt = key_index(t, k);
                assert(t[jt].0 == k);
                assert(jt != j);
                assert(s[jt].0 == k);
                assert(false);
            }
        }
    } else {
        let n = s.len() as int;
        lemma_key_index_at(t, key, n);
        assert forall|k: u32| k != key implies #[trigger] value_of(t, k) == value_of(s, k) by {
            lemma_key_index_props(s, k);
            lemma_key_index_props(t, k);
            if has_key(s, k) {
                let jk = key_index(s, k);
                assert(t[jk] == s[jk]);
                lemma_key_index_at(t, k, jk);
            } else if has_key(t, k) {
                let jt = key_index(t, k);
                assert(t[jt].0 == k);
                assert(jt != n);
                assert(s[jt].0 == k);
                assert(false);
            }
        }
        assert forall|i: int, jj: int| 0 <= i < jj < t.len() implies t[i].0 != t[jj].0 by {
            if jj == n {
                assert(s[i].0 != key);
            } else {
                assert(t[i] == s[i] && t[jj] == s[jj]);
            }
        }
    }
}

/// Store `value` under `key`, replacing or appending.
pub fn store_value<V>(v: &mut Vec<(u32, V)>, key: u32, value: V)
    requires
        keys_unique(old(v)@),
    ensures
        final(v)@ == spec_store(old(v)@, key, value),
        keys_unique(final(v)@),
        value_of(final(v)@, key) == Some(value),
        forall|k: u32| k != key ==> #[trigger] value_of(final(v)@, k) == value_of(old(v)@, k),
{
    proof {
        lemma_store_props(old(v)@, key, value);
    }
    match find_key(v, key) {
        Some(j) => {
            vstd::pervasive::VecAdditionalExecFns::set(v, j, (key, value));
        },
        None => {
            v.push((key, value));
        },
    }
}

/// First index holding the key, if any.
pub fn find_key<V>(v: &Vec<(u32, V)>, key: u32) -> (r: Option<usize>)
    ensures
        (match r {
            Some(j) => j == key_index(v@, key) && j < v.len() && v@[j as int].0 == key,
            None => !has_key(v@, key),
        }),
{
    let n = v.len();
    let mut i: usize = 0;
    while i < n
        invariant
            i <= n,
            n == v.len(),
            forall|k: int| 0 <= k < i ==> v@[k].0 != key,
        decreases n - i,
    {
        if v[i].0 == key {
            proof {
                lemma_key_index_at(v@, key, i as int);
            }
            return Some(i);
        }
        i = i + 1;
    }
    proof {
        lemma_key_index_props(v@, key);
    }
    None
}

} // verus!
