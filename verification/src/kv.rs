//! String-keyed association vectors.
//!
//! Several process-wide registries of the gateway (circuit-breaker cells,
//! adapter cache, MCP client handles, stores) are maps keyed by a string
//! identifier. They are held as vectors of pairs with unique keys; this
//! module gives the shared lookup function and the spec-level index it is
//! proved against.

use vstd::prelude::*;

verus! {

/// Index of the first entry with key `k`, or -1 when no entry has it.
pub open spec fn key_idx<V>(s: Seq<(String, V)>, k: Seq<char>) -> int
    decreases s.len(),
{
    if s.len() == 0 {
        -1
    } else if s[0].0@ == k {
        0
    } else {
        let r = key_idx(s.drop_first(), k);
        if r == -1 {
            -1
        } else {
            r + 1
        }
    }
}

pub open spec fn has_key<V>(s: Seq<(String, V)>, k: Seq<char>) -> bool {
    key_idx(s, k) >= 0
}

/// No two entries share a key.
pub open spec fn unique_keys<V>(s: Seq<(String, V)>) -> bool {
    forall|i: int, j: int| 0 <= i < j < s.len() ==> s[i].0@ != s[j].0@
}

/// `key_idx` is either -1 with no matching entry, or the first matching index.
pub proof fn lemma_key_idx<V>(s: Seq<(String, V)>, k: Seq<char>)
    ensures
        key_idx(s, k) == -1 ==> forall|j: int| 0 <= j < s.len() ==> s[j].0@ != k,
        key_idx(s, k) != -1 ==> {
            &&& 0 <= key_idx(s, k) < s.len()
            &&& s[key_idx(s, k)].0@ == k
            &&& forall|j: int| 0 <= j < key_idx(s, k) ==> s[j].0@ != k
        },
    decreases s.len(),
{
    if s.len() > 0 && s[0].0@ != k {
        lemma_key_idx::<V>(s.drop_first(), k);
        assert(forall|j: int| 1 <= j < s.len() ==> s[j] == s.drop_first()[j - 1]);
    }
}

/// A matching index that everything before it misses is `key_idx`.
pub proof fn lemma_key_idx_is_first<V>(s: Seq<(String, V)>, k: Seq<char>, i: int)
    requires
        0 <= i < s.len(),
        s[i].0@ == k,
        forall|j: int| 0 <= j < i ==> s[j].0@ != k,
    ensures
        key_idx(s, k) == i,
    decreases s.len(),
{
    if i > 0 {
        assert(forall|j: int| 1 <= j < s.len() ==> s[j] == s.drop_first()[j - 1]);
        lemma_key_idx_is_first(s.drop_first(), k, i - 1);
    }
}

/// How `key_idx` changes when an entry is appended.
pub proof fn lemma_key_idx_push<V>(s: Seq<(String, V)>, e: (String, V), k: Seq<char>)
    ensures
        key_idx(s, k) != -1 ==> key_idx(s.push(e), k) == key_idx(s, k),
        key_idx(s, k) == -1 && e.0@ == k ==> key_idx(s.push(e), k) == s.len(),
        key_idx(s, k) == -1 && e.0@ != k ==> key_idx(s.push(e), k) == -1,
{
    lemma_key_idx::<V>(s, k);
    if key_idx(s, k) == -1 {
        if e.0@ == k {
            assert(s.push(e)[s.len() as int] == e);
            assert(forall|j: int| 0 <= j < s.len() ==> s.push(e)[j] == s[j]);
            lemma_key_idx_is_first(s.push(e), k, s.len() as int);
        } else {
            assert(forall|j: int| 0 <= j < s.len() ==> s.push(e)[j] == s[j]);
            assert(s.push(e)[s.len() as int] == e);
            lemma_key_idx::<V>(s.push(e), k);
            if key_idx(s.push(e), k) != -1 {
                assert(s.push(e)[key_idx(s.push(e), k)].0@ == k);
                assert(false);
            }
        }
    } else {
        let i = key_idx(s, k);
        assert(s.push(e)[i] == s[i]);
        assert(forall|j: int| 0 <= j < i ==> s.push(e)[j] == s[j]);
        lemma_key_idx_is_first(s.push(e), k, i);
    }
}

/// `key_idx` depends only on the keys of the entries.
pub proof fn lemma_key_idx_same_keys<V, W>(s1: Seq<(String, V)>, s2: Seq<(String, W)>, k: Seq<char>)
    requires
        s1.len() == s2.len(),
        forall|j: int| 0 <= j < s1.len() ==> s1[j].0@ == s2[j].0@,
    ensures
        key_idx(s1, k) == key_idx(s2, k),
    decreases s1.len(),
{
    if s1.len() > 0 && s1[0].0@ != k {
        assert(forall|j: int| 0 <= j < s1.drop_first().len() ==> s1.drop_first()[j].0@ == s1[j + 1].0@);
        assert(forall|j: int| 0 <= j < s2.drop_first().len() ==> s2.drop_first()[j].0@ == s2[j + 1].0@);
        lemma_key_idx_same_keys(s1.drop_first(), s2.drop_first(), k);
    }
}

/// Appending a fresh key keeps the keys unique.
pub proof fn lemma_unique_push<V>(s: Seq<(String, V)>, e: (String, V))
    requires
        unique_keys(s),
        key_idx(s, e.0@) == -1,
    ensures
        unique_keys(s.push(e)),
{
    lemma_key_idx::<V>(s, e.0@);
}

/// Removing one entry keeps the keys unique and leaves every other key bound
/// to the same value.
pub proof fn lemma_key_idx_remove<V>(s: Seq<(String, V)>, i: int, k: Seq<char>)
    requires
        unique_keys(s),
        0 <= i < s.len(),
        s[i].0@ != k,
    ensures
        key_idx(s, k) == -1 ==> key_idx(s.remove(i), k) == -1,
        key_idx(s, k) != -1 ==> key_idx(s.remove(i), k) != -1 && s.remove(i)[key_idx(
            s.remove(i),
            k,
        )] == s[key_idx(s, k)],
{
    let t = s.remove(i);
    assert(forall|l: int| 0 <= l < i ==> t[l] == s[l]);
    assert(forall|l: int| i <= l < t.len() ==> t[l] == s[l + 1]);
    lemma_key_idx::<V>(s, k);
    if key_idx(s, k) == -1 {
        lemma_key_idx::<V>(t, k);
        if key_idx(t, k) != -1 {
            let j = key_idx(t, k);
            assert(t[j].0@ == k);
            assert(false);
        }
    } else {
        let j = key_idx(s, k);
        if j < i {
            lemma_key_idx_is_first(t, k, j);
        } else {
            assert(j != i);
            assert(t[j - 1] == s[j]);
            assert forall|l: int| 0 <= l < j - 1 implies t[l].0@ != k by {
                if l < i {
                    assert(t[l] == s[l]);
                } else {
                    assert(t[l] == s[l + 1]);
                }
            }
            lemma_key_idx_is_first(t, k, j - 1);
        }
    }
}

/// Removing an entry keeps the keys unique.
pub proof fn lemma_unique_remove<V>(s: Seq<(String, V)>, i: int)
    requires
        unique_keys(s),
        0 <= i < s.len(),
    ensures
        unique_keys(s.remove(i)),
{
    let t = s.remove(i);
    assert(forall|l: int| 0 <= l < i ==> t[l] == s[l]);
    assert(forall|l: int| i <= l < t.len() ==> t[l] == s[l + 1]);
}

/// Find the entry with key `k`.
pub fn kv_find<V>(v: &Vec<(String, V)>, k: &String) -> (r: Option<usize>)
    ensures
        match r {
            Some(i) => i as int == key_idx(v@, k@) && i < v.len() && v@[i as int].0@ == k@,
            None => key_idx(v@, k@) == -1,
        },
{
    let n = v.len();
    let mut i: usize = 0;
    while i < n
        invariant
            i <= n,
            n == v.len(),
            forall|j: int| 0 <= j < i ==> v@[j].0@ != k@,
        decreases n - i,
    {
        if v[i].0 == *k {
            proof {
                lemma_key_idx_is_first(v@, k@, i as int);
            }
            return Some(i);
        }
        i += 1;
    }
    proof {
        lemma_key_idx(v@, k@);
        if key_idx(v@, k@) != -1 {
            assert(v@[key_idx(v@, k@)].0@ == k@);
            assert(false);
        }
    }
    None
}

} // verus!
