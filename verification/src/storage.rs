//! Persistent per-module storage with a byte quota: a write that would
//! push a module's total stored bytes past its quota is refused in full.

use vstd::prelude::*;

use crate::functions::FunctionErrors;
use crate::kvlist::{
    has_key, key_index, kv_get, kv_put, kv_remove, lemma_key_index, spec_find, unique_keys,
};
use crate::strutil::{has_prefix, str_has_prefix};

verus! {

/// Settings of the persistent storage backend.
pub struct StorageConfig {
    /// The most value bytes one module may keep stored at a time.
    pub module_quota_bytes: u64,
}

/// What can go wrong in the storage service.
#[derive(Debug)]
pub enum StorageError {
    /// A write was refused because it would pass the module's quota.
    StorageLimitReached,
    /// The backend itself failed.
    Access(String),
}

/// The value bytes held by the entries of `s`.
pub open spec fn spec_used_bytes(s: Seq<(String, Vec<u8>)>) -> nat
    decreases s.len(),
{
    if s.len() == 0 {
        0
    } else {
        spec_used_bytes(s.drop_last()) + s.last().1@.len()
    }
}

/// The value bytes stored under `k`, zero when the key is unbound.
pub open spec fn spec_stored_size(s: Seq<(String, Vec<u8>)>, k: Seq<char>) -> nat {
    match spec_find(s, k) {
        Some(v) => v@.len(),
        None => 0,
    }
}

/// Appending an entry adds its value bytes to the total.
pub proof fn lemma_used_push(s: Seq<(String, Vec<u8>)>, e: (String, Vec<u8>))
    ensures
        spec_used_bytes(s.push(e)) == spec_used_bytes(s) + e.1@.len(),
{
    assert(s.push(e).drop_last() =~= s);
}

/// Removing an entry subtracts its value bytes from the total.
pub proof fn lemma_used_remove(s: Seq<(String, Vec<u8>)>, i: int)
    requires
        0 <= i < s.len(),
    ensures
        spec_used_bytes(s.remove(i)) == spec_used_bytes(s) - s[i].1@.len(),
    decreases s.len(),
{
    if i == s.len() - 1 {
        assert(s.remove(i) =~= s.drop_last());
    } else {
        assert(s.remove(i).drop_last() =~= s.drop_last().remove(i));
        assert(s.remove(i).last() == s.last());
        lemma_used_remove(s.drop_last(), i);
    }
}

/// One module's slice of persistent storage.
pub struct ModuleStorage {
    /// The owning module's name; keys are namespaced by it.
    pub namespace: String,
    /// The most value bytes this module may keep stored.
    pub quota_bytes: u64,
    /// The value bytes currently stored.
    pub used_bytes: u64,
    /// The stored entries.
    pub entries: Vec<(String, Vec<u8>)>,
}

impl ModuleStorage {
    /// Each key bound once; the byte count is exact and within quota.
    pub open spec fn wf(self) -> bool {
        &&& unique_keys(self.entries@)
        &&& self.used_bytes == spec_used_bytes(self.entries@)
        &&& self.used_bytes <= self.quota_bytes
    }

    /// The value stored under a key.
    pub open spec fn spec_get(self, k: Seq<char>) -> Option<Vec<u8>> {
        spec_find(self.entries@, k)
    }

    pub fn new(namespace: String, quota_bytes: u64) -> (r: Self)
        ensures
            r.wf(),
            r.namespace == namespace,
            r.quota_bytes == quota_bytes,
            r.entries@ == Seq::<(String, Vec<u8>)>::empty(),
    {
        ModuleStorage { namespace, quota_bytes, used_bytes: 0, entries: Vec::new() }
    }

    /// Reads the value stored under `key`.
    pub fn get(&self, key: &String) -> (r: Option<&Vec<u8>>)
        ensures
            (match r {
                Some(v) => self.spec_get(key@) == Some(*v),
                None => self.spec_get(key@) is None,
            }),
    {
        kv_get(&self.entries, key)
    }

    /// Stores `value` under `key`.  When the write would push the stored
    /// bytes past the quota it is refused in full — nothing changes and
    /// the guest sees `StorageLimitReached`; otherwise the previous value
    /// comes back.
    pub fn put(&mut self, key: String, value: Vec<u8>) -> (r: Result<
        Option<Vec<u8>>,
        FunctionErrors,
    >)
        requires
            old(self).wf(),
        ensures
            final(self).wf(),
            final(self).namespace == old(self).namespace,
            final(self).quota_bytes == old(self).quota_bytes,
            (match r {
                Ok(prev) => {
                    &&& spec_used_bytes(old(self).entries@) - spec_stored_size(
                        old(self).entries@,
                        key@,
                    ) + value@.len() <= old(self).quota_bytes
                    &&& prev == spec_find(old(self).entries@, key@)
                    &&& final(self).spec_get(key@) == Some(value)
                    &&& forall|k: Seq<char>|
                        k != key@ ==> final(self).spec_get(k) == old(self).spec_get(k)
                },
                Err(e) => {
                    &&& e == FunctionErrors::StorageLimitReached
                    &&& spec_used_bytes(old(self).entries@) - spec_stored_size(
                        old(self).entries@,
                        key@,
                    ) + value@.len() > old(self).quota_bytes
                    &&& *final(self) == *old(self)
                },
            }),
    {
        let freed: u64 = match kv_get(&self.entries, &key) {
            Some(v) => v.len() as u64,
            None => 0,
        };
        proof {
            lemma_key_index(self.entries@, key@);
            if has_key(self.entries@, key@) {
                lemma_used_remove(self.entries@, key_index(self.entries@, key@));
            }
            assert(freed <= self.used_bytes);
        }
        let remaining = self.used_bytes - freed;
        if value.len() as u64 > self.quota_bytes - remaining {
            return Err(FunctionErrors::StorageLimitReached);
        }
        let incoming: u64 = value.len() as u64;
        let ghost before = self.entries@;
        let prev = kv_remove(&mut self.entries, &key);
        proof {
            if has_key(before, key@) {
                lemma_used_remove(before, key_index(before, key@));
            }
        }
        self.used_bytes = remaining;
        let ghost mid = self.entries@;
        kv_put(&mut self.entries, key, value);
        proof {
            crate::kvlist::lemma_key_index(mid, key@);
            lemma_used_push(mid, (self.entries@.last().0, self.entries@.last().1));
            assert(self.entries@ == mid.push(self.entries@.last()));
        }
        self.used_bytes = remaining + incoming;
        Ok(prev)
    }

    /// Erases the value stored under `key`, returning it.
    pub fn delete(&mut self, key: &String) -> (r: Option<Vec<u8>>)
        requires
            old(self).wf(),
        ensures
            final(self).wf(),
            final(self).namespace == old(self).namespace,
            final(self).quota_bytes == old(self).quota_bytes,
            r == old(self).spec_get(key@),
            final(self).spec_get(key@) is None,
            forall|k: Seq<char>| k != key@ ==> final(self).spec_get(k) == old(self).spec_get(k),
    {
        proof {
            lemma_key_index(self.entries@, key@);
            if has_key(self.entries@, key@) {
                lemma_used_remove(self.entries@, key_index(self.entries@, key@));
            }
        }
        let freed: u64 = match kv_get(&self.entries, key) {
            Some(v) => v.len() as u64,
            None => 0,
        };
        let r = kv_remove(&mut self.entries, key);
        self.used_bytes = self.used_bytes - freed;
        r
    }

    /// The stored keys that begin with `prefix`, in storage order.
    pub fn list_keys(&self, prefix: &str) -> (r: Vec<String>)
        ensures
            r.deep_view() == spec_keys_with_prefix(self.entries@, prefix@),
    {
        let mut out: Vec<String> = Vec::new();
        let mut i: usize = 0;
        while i < self.entries.len()
            invariant
                i <= self.entries@.len(),
                out.deep_view() == spec_keys_with_prefix(
                    self.entries@.subrange(0, i as int),
                    prefix@,
                ),
            decreases self.entries@.len() - i,
        {
            if str_has_prefix(self.entries[i].0.as_str(), prefix) {
                out.push(self.entries[i].0.clone());
                proof {
                    assert(self.entries@.subrange(0, i + 1 as int).drop_last() =~= self.entries@
                        .subrange(0, i as int));
                    assert(out.deep_view() =~= spec_keys_with_prefix(
                        self.entries@.subrange(0, i + 1 as int),
                        prefix@,
                    ));
                }
            } else {
                proof {
                    assert(self.entries@.subrange(0, i + 1 as int).drop_last() =~= self.entries@
                        .subrange(0, i as int));
                    assert(out.deep_view() =~= spec_keys_with_prefix(
                        self.entries@.subrange(0, i + 1 as int),
                        prefix@,
                    ));
                }
            }
            i += 1;
        }
        proof {
            assert(self.entries@.subrange(0, self.entries@.len() as int) =~= self.entries@);
        }
        out
    }
}

/// The keys of `s` that begin with `pre`, in entry order.
pub open spec fn spec_keys_with_prefix(s: Seq<(String, Vec<u8>)>, pre: Seq<char>) -> Seq<
    Seq<char>,
>
    decreases s.len(),
{
    if s.len() == 0 {
        Seq::<Seq<char>>::empty()
    } else {
        let init = spec_keys_with_prefix(s.drop_last(), pre);
        if has_prefix(s.last().0@, pre) {
            init.push(s.last().0@)
        } else {
            init
        }
    }
}

} // verus!
