//! A verified string-keyed association list.
//!
//! The engine's shared services (benchmark aggregates, the response cache,
//! per-module storage) are maps with few entries and string-like keys; this
//! module gives them one verified representation with map semantics stated
//! through `spec_find`.

use vstd::prelude::*;

verus! {

/// Index of the first entry whose key views as `k`, or `-1` when none does.
pub open spec fn key_index<V>(s: Seq<(String, V)>, k: Seq<char>) -> int
    decreases s.len(),
{
    if s.len() == 0 {
        -1
    } else if s[0].0@ == k {
        0
    } else {
        let r = key_index(s.drop_first(), k);
        if r < 0 {
            -1
        } else {
            r + 1
        }
    }
}

/// Whether some entry has key `k`.
pub open spec fn has_key<V>(s: Seq<(String, V)>, k: Seq<char>) -> bool {
    key_index(s, k) >= 0
}

/// The value mapped to `k`: the first entry's, or `None` when absent.
pub open spec fn spec_find<V>(s: Seq<(String, V)>, k: Seq<char>) -> Option<V> {
    if has_key(s, k) {
        Some(s[key_index(s, k)].1)
    } else {
        None
    }
}

/// No two entries share a key, so the list denotes a map.
pub open spec fn unique_keys<V>(s: Seq<(String, V)>) -> bool {
    forall|i: int, j: int| 0 <= i < j < s.len() ==> (#[trigger] s[i].0)@ != (#[trigger] s[j].0)@
}

/// `key_index` points at the first occurrence of `k`, when there is one.
pub proof fn lemma_key_index<V>(s: Seq<(String, V)>, k: Seq<char>)
    ensures
        has_key(s, k) <==> exists|i: int| 0 <= i < s.len() && (#[trigger] s[i].0)@ == k,
        has_key(s, k) ==> {
            &&& 0 <= key_index(s, k) < s.len()
            &&& s[key_index(s, k)].0@ == k
            &&& forall|j: int| 0 <= j < key_index(s, k) ==> (#[trigger] s[j].0)@ != k
        },
    decreases s.len(),
{
    if s.len() > 0 && s[0].0@ != k {
        lemma_key_index(s.drop_first(), k);
        assert forall|i: int| 0 <= i < s.len() && (#[trigger] s[i].0)@ == k implies has_key(
            s,
            k,
        ) by {
            assert(s.drop_first()[i - 1].0@ == k);
        }
        if has_key(s, k) {
            assert forall|j: int| 0 <= j < key_index(s, k) implies (#[trigger] s[j].0)@ != k by {
                if j > 0 {
                    assert(s.drop_first()[j - 1].0@ != k);
                }
            }
        }
    }
}

/// When the head's key is not `k`, the lookup passes over it.
pub proof fn lemma_find_step<V>(s: Seq<(String, V)>, k: Seq<char>)
    requires
        s.len() > 0,
        s[0].0@ != k,
    ensures
        spec_find(s, k) == spec_find(s.drop_first(), k),
{
    if key_index(s.drop_first(), k) >= 0 {
        lemma_key_index(s.drop_first(), k);
        assert(s[key_index(s, k)] == s.drop_first()[key_index(s.drop_first(), k)]);
    }
}

/// Overwriting the entry at the first position of its key rewrites that
/// key's binding and no other.
pub proof fn lemma_find_update<V>(s: Seq<(String, V)>, i: int, e: (String, V), k: Seq<char>)
    requires
        0 <= i < s.len(),
        s[i].0@ == e.0@,
        forall|j: int| 0 <= j < i ==> (#[trigger] s[j].0)@ != e.0@,
    ensures
        spec_find(s.update(i, e), k) == if k == e.0@ {
            Some(e.1)
        } else {
            spec_find(s, k)
        },
    decreases i,
{
    let t = s.update(i, e);
    if i == 0 {
        assert(s.update(0, e).drop_first() =~= s.drop_first());
        if k != e.0@ {
            lemma_find_step(t, k);
            lemma_find_step(s, k);
        }
    } else {
        assert(t[0] == s[0]);
        if k != s[0].0@ {
            lemma_find_step(t, k);
            lemma_find_step(s, k);
        }
        assert(s.update(i, e).drop_first() =~= s.drop_first().update(i - 1, e));
        assert(s.drop_first()[i - 1].0@ == e.0@);
        lemma_find_update(s.drop_first(), i - 1, e, k);
    }
}

/// Appending an entry with a fresh key adds that binding and no other.
pub proof fn lemma_find_push<V>(s: Seq<(String, V)>, e: (String, V), k: Seq<char>)
    requires
        !has_key(s, e.0@),
    ensures
        spec_find(s.push(e), k) == if k == e.0@ {
            Some(e.1)
        } else {
            spec_find(s, k)
        },
    decreases s.len(),
{
    let t = s.push(e);
    if s.len() == 0 {
        assert(t[0] == e);
        assert(t.drop_first() =~= Seq::<(String, V)>::empty());
        assert(key_index(t.drop_first(), k) == -1);
        if k == e.0@ {
            assert(key_index(t, k) == 0);
            assert(spec_find(t, k) == Some(e.1));
        } else {
            assert(key_index(t, k) == -1);
            assert(spec_find(t, k) is None);
            assert(key_index(s, k) == -1);
        }
    } else {
        assert(t[0] == s[0]);
        assert(t.drop_first() =~= s.drop_first().push(e));
        assert(s[0].0@ != e.0@);
        assert(!has_key(s.drop_first(), e.0@));
        if k == s[0].0@ {
            assert(key_index(t, k) == 0);
            assert(spec_find(t, k) == Some(t[0].1));
            assert(key_index(s, k) == 0);
            assert(spec_find(s, k) == Some(s[0].1));
        } else {
            lemma_find_step(t, k);
            lemma_find_step(s, k);
            lemma_find_push(s.drop_first(), e, k);
        }
    }
}

/// Removing the entry of a key (in a map) erases that binding and no other.
pub proof fn lemma_find_remove<V>(s: Seq<(String, V)>, i: int, k: Seq<char>)
    requires
        0 <= i < s.len(),
        unique_keys(s),
    ensures
        spec_find(s.remove(i), k) == if k == s[i].0@ {
            None
        } else {
            spec_find(s, k)
        },
    decreases i,
{
    assert forall|a: int, b: int| 0 <= a < b < s.remove(i).len() implies (#[trigger] s.remove(i)[a].0)@
        != (#[trigger] s.remove(i)[b].0)@ by {
        if b < i {
        } else if a < i {
            assert(s.remove(i)[b] == s[b + 1]);
        } else {
            assert(s.remove(i)[a] == s[a + 1]);
            assert(s.remove(i)[b] == s[b + 1]);
        }
    }
    let t = s.remove(i);
    if i == 0 {
        assert(t =~= s.drop_first());
        if k == s[0].0@ {
            lemma_key_index(t, k);
            if has_key(t, k) {
                let w = choose|w: int| 0 <= w < t.len() && (#[trigger] t[w].0)@ == k;
                assert(s[w + 1].0@ == s[0].0@);
            }
        } else {
            lemma_find_step(s, k);
        }
    } else {
        assert(t[0] == s[0]);
        if k != s[0].0@ {
            lemma_find_step(t, k);
            lemma_find_step(s, k);
        }
        assert(s.remove(i).drop_first() =~= s.drop_first().remove(i - 1));
        assert forall|a: int, b: int|
            0 <= a < b < s.drop_first().len() implies (#[trigger] s.drop_first()[a].0)@ != (
        #[trigger] s.drop_first()[b].0)@ by {
            assert(s.drop_first()[a] == s[a + 1]);
            assert(s.drop_first()[b] == s[b + 1]);
        }
        lemma_find_remove(s.drop_first(), i - 1, k);
    }
}

/// Returns the index of the first entry whose key equals `key`, if any.
pub fn find_index<V>(entries: &Vec<(String, V)>, key: &String) -> (r: Option<usize>)
    ensures
        (match r {
            Some(i) => {
                &&& 0 <= i < entries@.len()
                &&& key_index(entries@, key@) == i as int
            },
            None => !has_key(entries@, key@),
        }),
{
    proof {
        lemma_key_index(entries@, key@);
    }
    let mut i: usize = 0;
    while i < entries.len()
        invariant
            i <= entries@.len(),
            forall|j: int| 0 <= j < i ==> (#[trigger] entries@[j].0)@ != key@,
            has_key(entries@, key@) ==> 0 <= key_index(entries@, key@) < entries@.len()
                && entries@[key_index(entries@, key@)].0@ == key@ && (forall|j: int|
                0 <= j < key_index(entries@, key@) ==> (#[trigger] entries@[j].0)@ != key@),
            has_key(entries@, key@) <==> exists|j: int|
                0 <= j < entries@.len() && (#[trigger] entries@[j].0)@ == key@,
        decreases entries@.len() - i,
    {
        if entries[i].0 == *key {
            proof {
                assert(has_key(entries@, key@));
                let ki = key_index(entries@, key@);
                if ki < i as int {
                    assert(entries@[ki].0@ != key@);
                }
                if ki > i as int {
                    assert(entries@[i as int].0@ != key@);
                }
            }
            return Some(i);
        }
        i += 1;
    }
    None
}

/// Looks a key up, as a map would.
pub fn kv_get<'a, V>(entries: &'a Vec<(String, V)>, key: &String) -> (r: Option<&'a V>)
    ensures
        (match r {
            Some(v) => spec_find(entries@, key@) == Some(*v),
            None => spec_find(entries@, key@) is None,
        }),
{
    match find_index(entries, key) {
        Some(i) => Some(&entries[i].1),
        None => None,
    }
}

/// Binds `key` to `value`, overwriting any earlier binding.  Every other
/// key's binding is untouched, and entry order is kept.
pub fn kv_put<V>(entries: &mut Vec<(String, V)>, key: String, value: V)
    requires
        unique_keys(old(entries)@),
    ensures
        unique_keys(final(entries)@),
        spec_find(final(entries)@, key@) == Some(value),
        forall|k: Seq<char>| k != key@ ==> spec_find(final(entries)@, k) == spec_find(
            old(entries)@,
            k,
        ),
        final(entries)@.len() == old(entries)@.len() + (if has_key(old(entries)@, key@) {
            0int
        } else {
            1int
        }),
        has_key(old(entries)@, key@) ==> final(entries)@ == old(entries)@.update(
            key_index(old(entries)@, key@),
            (key, value),
        ),
        !has_key(old(entries)@, key@) ==> final(entries)@ == old(entries)@.push((key, value)),
{
    proof {
        lemma_key_index(old(entries)@, key@);
    }
    match find_index(entries, &key) {
        Some(i) => {
            let ghost old_seq = entries@;
            let e = entries.remove(i);
            entries.insert(i, (key, value));
            proof {
                let ghost new_e = entries@[i as int];
                assert(entries@ =~= old_seq.update(i as int, new_e));
                lemma_key_index(old_seq, new_e.0@);
                lemma_find_update(old_seq, i as int, new_e, key@);
                assert forall|k: Seq<char>| k != key@ implies spec_find(entries@, k) == spec_find(
                    old_seq,
                    k,
                ) by {
                    lemma_find_update(old_seq, i as int, new_e, k);
                }
                assert forall|a: int, b: int| 0 <= a < b < entries@.len() implies (
                #[trigger] entries@[a].0)@ != (#[trigger] entries@[b].0)@ by {
                    assert(old_seq[a].0@ != old_seq[b].0@);
                }
            }
        },
        None => {
            let ghost old_seq = entries@;
            entries.push((key, value));
            proof {
                let ghost e = entries@[old_seq.len() as int];
                assert(entries@ =~= old_seq.push(e));
                lemma_find_push(old_seq, e, key@);
                assert forall|k: Seq<char>| k != key@ implies spec_find(entries@, k) == spec_find(
                    old_seq,
                    k,
                ) by {
                    lemma_find_push(old_seq, e, k);
                }
                lemma_key_index(old_seq, key@);
                assert forall|a: int, b: int| 0 <= a < b < entries@.len() implies (
                #[trigger] entries@[a].0)@ != (#[trigger] entries@[b].0)@ by {
                    if b < old_seq.len() {
                        assert(old_seq[a].0@ != old_seq[b].0@);
                    } else {
                        assert(entries@[a].0@ != key@);
                    }
                }
            }
        },
    }
}

/// Erases `key`'s binding, if it has one; every other binding is untouched.
/// Returns the removed value.
pub fn kv_remove<V>(entries: &mut Vec<(String, V)>, key: &String) -> (r: Option<V>)
    requires
        unique_keys(old(entries)@),
    ensures
        unique_keys(final(entries)@),
        spec_find(final(entries)@, key@) is None,
        r == spec_find(old(entries)@, key@),
        forall|k: Seq<char>| k != key@ ==> spec_find(final(entries)@, k) == spec_find(
            old(entries)@,
            k,
        ),
        has_key(old(entries)@, key@) ==> final(entries)@ == old(entries)@.remove(
            key_index(old(entries)@, key@),
        ),
        !has_key(old(entries)@, key@) ==> final(entries)@ == old(entries)@,
{
    proof {
        lemma_key_index(old(entries)@, key@);
    }
    match find_index(entries, key) {
        Some(i) => {
            let ghost old_seq = entries@;
            let e = entries.remove(i);
            proof {
                assert forall|k: Seq<char>| true implies spec_find(entries@, k) == (if k == key@ {
                    None
                } else {
                    spec_find(old_seq, k)
                }) by {
                    lemma_find_remove(old_seq, i as int, k);
                }
                assert forall|a: int, b: int| 0 <= a < b < entries@.len() implies (
                #[trigger] entries@[a].0)@ != (#[trigger] entries@[b].0)@ by {
                    let a0 = if a < i as int {
                        a
                    } else {
                        a + 1
                    };
                    let b0 = if b < i as int {
                        b
                    } else {
                        b + 1
                    };
                    assert(old_seq[a0].0@ != old_seq[b0].0@);
                }
            }
            Some(e.1)
        },
        None => None,
    }
}

} // verus!
