//! The GET-response pipeline and its cache: static and challenge
//! responses answered inline, rule responses generated by a module and
//! cached under three modes, with at most one concurrent build per key.

use vstd::prelude::*;

use crate::config::{CachingMode, GetMode, ResponseMode};
use crate::kvlist::{kv_get, kv_put, spec_find, unique_keys};
use crate::strutil::{seq_contains_string, vec_contains_string};

verus! {

/// One cached GET response: the bytes and when they were produced.
pub struct CacheEntry {
    /// The cached response body.
    pub bytes: Vec<u8>,
    /// Seconds since the epoch when the entry was stored.
    pub created_at: u64,
}

/// A timed entry serves while it is younger than the validity window.
pub open spec fn spec_fresh(e: CacheEntry, now: u64, validity: u64) -> bool {
    now < e.created_at + validity
}

/// The shared response cache, keyed by request fingerprint, with the
/// single-flight guard of keys whose response is being built right now.
pub struct ResponseCache {
    /// The cached responses.
    pub entries: Vec<(String, CacheEntry)>,
    /// The keys whose response a builder is computing at this moment.
    pub in_flight: Vec<String>,
}

impl ResponseCache {
    /// Entries form a map, and no key is in flight twice.
    pub open spec fn wf(self) -> bool {
        &&& unique_keys(self.entries@)
        &&& forall|i: int, j: int|
            0 <= i < j < self.in_flight@.len() ==> (#[trigger] self.in_flight@[i])@ != (
            #[trigger] self.in_flight@[j])@
    }

    /// The cached entry under a key.
    pub open spec fn spec_entry(self, k: Seq<char>) -> Option<CacheEntry> {
        spec_find(self.entries@, k)
    }

    /// Whether a build for the key is under way.
    pub open spec fn spec_in_flight(self, k: Seq<char>) -> bool {
        seq_contains_string(self.in_flight@, k)
    }

    pub fn new() -> (r: Self)
        ensures
            r.wf(),
            r.entries@ == Seq::<(String, CacheEntry)>::empty(),
            r.in_flight@ == Seq::<String>::empty(),
    {
        ResponseCache { entries: Vec::new(), in_flight: Vec::new() }
    }

    /// Reads a cached response of any age: the persistent-response mode.
    pub fn lookup(&self, key: &String) -> (r: Option<&Vec<u8>>)
        ensures
            (match r {
                Some(b) => (match self.spec_entry(key@) {
                    Some(e) => e.bytes == *b,
                    None => false,
                }),
                None => self.spec_entry(key@) is None,
            }),
    {
        match kv_get(&self.entries, key) {
            Some(e) => Some(&e.bytes),
            None => None,
        }
    }

    /// Reads a cached response younger than `validity` seconds: the timed
    /// mode.  A missing or expired entry reads as nothing.
    pub fn lookup_timed(&self, key: &String, now: u64, validity: u64) -> (r: Option<&Vec<u8>>)
        ensures
            (match r {
                Some(b) => (match self.spec_entry(key@) {
                    Some(e) => spec_fresh(e, now, validity) && e.bytes == *b,
                    None => false,
                }),
                None => (match self.spec_entry(key@) {
                    Some(e) => !spec_fresh(e, now, validity),
                    None => true,
                }),
            }),
    {
        match kv_get(&self.entries, key) {
            Some(e) => {
                let fresh = if validity > u64::MAX - e.created_at {
                    true
                } else {
                    now < e.created_at + validity
                };
                if fresh {
                    Some(&e.bytes)
                } else {
                    None
                }
            },
            None => None,
        }
    }

    /// The begin transition of the single-flight guard: the build is
    /// granted exactly when no build for the key is under way, and a
    /// granted key goes in flight.
    pub open spec fn spec_begin(
        pre: Seq<String>,
        post: Seq<String>,
        key: String,
        granted: bool,
    ) -> bool {
        &&& granted == !seq_contains_string(pre, key@)
        &&& post == (if granted {
            pre.push(key)
        } else {
            pre
        })
    }

    /// Asks to build the response for `key`.  Granted exactly when no
    /// other builder holds the key; the cache's entries are untouched.
    pub fn try_begin_build(&mut self, key: &String) -> (r: bool)
        requires
            old(self).wf(),
        ensures
            final(self).wf(),
            final(self).entries@ == old(self).entries@,
            Self::spec_begin(old(self).in_flight@, final(self).in_flight@, *key, r),
    {
        if vec_contains_string(&self.in_flight, key) {
            false
        } else {
            self.in_flight.push(key.clone());
            proof {
                let f = self.in_flight@;
                assert(f == old(self).in_flight@.push(*key));
                assert forall|i: int, j: int| 0 <= i < j < f.len() implies (#[trigger] f[i])@
                    != (#[trigger] f[j])@ by {
                    if j < f.len() - 1 {
                        assert(old(self).in_flight@[i]@ != old(self).in_flight@[j]@);
                    } else {
                        assert(f[j]@ == key@);
                    }
                }
            }
            true
        }
    }

    /// Stores the built response under `key` and releases the
    /// single-flight guard; every other key's entry and guard are left
    /// alone, so the waiting readers all see these same bytes.
    pub fn complete_build(&mut self, key: String, bytes: Vec<u8>, now: u64)
        requires
            old(self).wf(),
        ensures
            final(self).wf(),
            (match final(self).spec_entry(key@) {
                Some(e) => e.bytes == bytes && e.created_at == now,
                None => false,
            }),
            forall|k: Seq<char>|
                k != key@ ==> final(self).spec_entry(k) == old(self).spec_entry(k),
            !final(self).spec_in_flight(key@),
            forall|k: Seq<char>|
                k != key@ ==> final(self).spec_in_flight(k) == old(self).spec_in_flight(k),
    {
        remove_string(&mut self.in_flight, &key);
        kv_put(&mut self.entries, key, CacheEntry { bytes, created_at: now });
    }
}

/// Removes the string with view `s@` from `v`, which holds it at most
/// once; membership of every other string is untouched.
fn remove_string(v: &mut Vec<String>, s: &String)
    requires
        forall|i: int, j: int|
            0 <= i < j < old(v)@.len() ==> (#[trigger] old(v)@[i])@ != (#[trigger] old(v)@[j])@,
    ensures
        forall|i: int, j: int|
            0 <= i < j < final(v)@.len() ==> (#[trigger] final(v)@[i])@ != (
            #[trigger] final(v)@[j])@,
        !seq_contains_string(final(v)@, s@),
        forall|k: Seq<char>|
            k != s@ ==> seq_contains_string(final(v)@, k) == seq_contains_string(old(v)@, k),
{
    let mut i: usize = 0;
    while i < v.len()
        invariant
            i <= v@.len(),
            v@ == old(v)@,
            forall|a: int, b: int|
                0 <= a < b < v@.len() ==> (#[trigger] v@[a])@ != (#[trigger] v@[b])@,
            forall|j: int| 0 <= j < i ==> (#[trigger] v@[j])@ != s@,
        decreases v@.len() - i,
    {
        if v[i] == *s {
            let ghost before = v@;
            v.remove(i);
            proof {
                assert forall|a: int, b: int| 0 <= a < b < v@.len() implies (#[trigger] v@[a])@
                    != (#[trigger] v@[b])@ by {
                    let a0 = if a < i as int {
                        a
                    } else {
                        a + 1
                    };
                    let b0 = if b < i as int {
                        b
                    } else {
                        b + 1
                    };
                    assert(before[a0]@ != before[b0]@);
                }
                assert forall|k: Seq<char>| true implies (seq_contains_string(v@, k) ==> k != s@
                    && seq_contains_string(before, k)) by {
                    if seq_contains_string(v@, k) {
                        let w = choose|w: int| 0 <= w < v@.len() && (#[trigger] v@[w])@ == k;
                        let w0 = if w < i as int {
                            w
                        } else {
                            w + 1
                        };
                        assert(before[w0]@ == k);
                        if k == s@ {
                            assert(before[i as int]@ == s@);
                        }
                    }
                }
                assert forall|k: Seq<char>|
                    k != s@ && seq_contains_string(before, k) implies seq_contains_string(
                    v@,
                    k,
                ) by {
                    let w = choose|w: int| 0 <= w < before.len() && (#[trigger] before[w])@ == k;
                    if w < i as int {
                        assert(v@[w]@ == k);
                    } else {
                        assert(v@[w - 1]@ == k);
                    }
                }
            }
            return ;
        }
        i += 1;
    }
}

/// Single-flight: of two builders asking in turn to build the same key,
/// at most one is granted; the other waits for the first build's bytes.
pub proof fn lemma_single_flight(
    f0: Seq<String>,
    f1: Seq<String>,
    f2: Seq<String>,
    key1: String,
    key2: String,
    g1: bool,
    g2: bool,
)
    requires
        key1@ == key2@,
        ResponseCache::spec_begin(f0, f1, key1, g1),
        ResponseCache::spec_begin(f1, f2, key2, g2),
    ensures
        !(g1 && g2),
{
    if g1 {
        assert(f1[f0.len() as int]@ == key2@);
        assert(seq_contains_string(f1, key2@));
    }
}

/// What the GET pipeline decides to do with one request.
pub enum GetResponse {
    /// Answer immediately with this status and body.
    Respond { status: u16, body: Vec<u8> },
    /// Run the named module synchronously and answer with its response
    /// slot; the caller completes the build it was granted.
    InvokeRule { module: String },
    /// Another caller is building this key right now: await its bytes.
    AwaitBuild { module: String },
    /// Persistent-response mode with nothing stored and no inline call
    /// allowed: a not-ready answer.
    NotReady,
}

/// Answers the challenge handshake: when the request's verify token
/// matches the configured secret the challenge is echoed back with
/// status 200, and anything else is refused with 403.
pub fn facebook_response(secret: &String, verify_token: Option<&String>, challenge: Option<
    &Vec<u8>,
>) -> (r: (u16, Vec<u8>))
    ensures
        (match (verify_token, challenge) {
            (Some(t), Some(c)) => {
                if t@ == secret@ {
                    r.0 == 200 && r.1@ == c@
                } else {
                    r.0 == 403 && r.1@ == Seq::<u8>::empty()
                }
            },
            _ => r.0 == 403 && r.1@ == Seq::<u8>::empty(),
        }),
{
    match (verify_token, challenge) {
        (Some(t), Some(c)) => {
            if *t == *secret {
                let b = c.clone();
                proof {
                    assert(b@ =~= c@);
                }
                (200, b)
            } else {
                (403, Vec::new())
            }
        },
        _ => (403, Vec::new()),
    }
}

/// Decides how a GET request at a webhook with this mode is answered.
/// Static bodies and challenge handshakes are answered inline and never
/// invoke a module.  Rule mode consults the cache under its caching mode;
/// a miss that this caller is granted becomes a synchronous invocation,
/// completed through `ResponseCache::complete_build`.
pub fn plan_get(
    mode: &GetMode,
    verify_token: Option<&String>,
    challenge: Option<&Vec<u8>>,
    cache: &mut ResponseCache,
    cache_key: &String,
    now: u64,
) -> (r: GetResponse)
    requires
        old(cache).wf(),
    ensures
        final(cache).wf(),
        final(cache).entries@ == old(cache).entries@,
        (match mode.response_mode {
            ResponseMode::Static(body) => final(cache).in_flight@ == old(cache).in_flight@ && (
            match r {
                GetResponse::Respond { status, body: b } => status == 200 && b@
                    == vstd::utf8::encode_utf8(body@),
                _ => false,
            }),
            ResponseMode::Facebook(secret) => final(cache).in_flight@ == old(cache).in_flight@
                && (match r {
                GetResponse::Respond { status, body: b } => (match (verify_token, challenge) {
                    (Some(t), Some(c)) => {
                        if t@ == secret@ {
                            status == 200 && b@ == c@
                        } else {
                            status == 403 && b@ == Seq::<u8>::empty()
                        }
                    },
                    _ => status == 403 && b@ == Seq::<u8>::empty(),
                }),
                _ => false,
            }),
            ResponseMode::Rule(module) => (match mode.caching_mode {
                CachingMode::NoCache => final(cache).in_flight@ == old(cache).in_flight@ && r
                    == (GetResponse::InvokeRule { module }),
                CachingMode::Timed { validity } => (match old(cache).spec_entry(cache_key@) {
                    Some(e) => {
                        if spec_fresh(e, now, validity) {
                            &&& final(cache).in_flight@ == old(cache).in_flight@
                            &&& (match r {
                                GetResponse::Respond { status, body } => status == 200 && body@
                                    == e.bytes@,
                                _ => false,
                            })
                        } else {
                            plan_get_miss(*old(cache), *final(cache), *cache_key, module, r)
                        }
                    },
                    None => plan_get_miss(*old(cache), *final(cache), *cache_key, module, r),
                }),
                CachingMode::UsePersistentResponse { call_on_none } => final(cache).in_flight@
                    == old(cache).in_flight@ && (match old(cache).spec_entry(cache_key@) {
                    Some(e) => (match r {
                        GetResponse::Respond { status, body } => status == 200 && body@
                            == e.bytes@,
                        _ => false,
                    }),
                    None => {
                        if call_on_none {
                            r == (GetResponse::InvokeRule { module })
                        } else {
                            r == GetResponse::NotReady
                        }
                    },
                }),
            }),
        }),
{
    match &mode.response_mode {
        ResponseMode::Static(body) => {
            let b = body.as_str().as_bytes_vec();
            GetResponse::Respond { status: 200, body: b }
        },
        ResponseMode::Facebook(secret) => {
            let (status, body) = facebook_response(secret, verify_token, challenge);
            GetResponse::Respond { status, body }
        },
        ResponseMode::Rule(module) => {
            match &mode.caching_mode {
                CachingMode::NoCache => GetResponse::InvokeRule { module: module.clone() },
                CachingMode::Timed { validity } => {
                    let hit = match cache.lookup_timed(cache_key, now, *validity) {
                        Some(b) => {
                            let c = b.clone();
                            proof {
                                assert(c@ =~= b@);
                            }
                            Some(c)
                        },
                        None => None,
                    };
                    match hit {
                        Some(b) => GetResponse::Respond { status: 200, body: b },
                        None => {
                            if cache.try_begin_build(cache_key) {
                                GetResponse::InvokeRule { module: module.clone() }
                            } else {
                                GetResponse::AwaitBuild { module: module.clone() }
                            }
                        },
                    }
                },
                CachingMode::UsePersistentResponse { call_on_none } => {
                    let hit = match cache.lookup(cache_key) {
                        Some(b) => {
                            let c = b.clone();
                            proof {
                                assert(c@ =~= b@);
                            }
                            Some(c)
                        },
                        None => None,
                    };
                    match hit {
                        Some(b) => GetResponse::Respond { status: 200, body: b },
                        None => {
                            if *call_on_none {
                                GetResponse::InvokeRule { module: module.clone() }
                            } else {
                                GetResponse::NotReady
                            }
                        },
                    }
                },
            }
        },
    }
}

/// On a timed-cache miss the caller either wins the single-flight guard
/// and invokes the module, or awaits the build already under way.
pub open spec fn plan_get_miss(
    pre: ResponseCache,
    post: ResponseCache,
    cache_key: String,
    module: String,
    r: GetResponse,
) -> bool {
    if pre.spec_in_flight(cache_key@) {
        &&& post.in_flight@ == pre.in_flight@
        &&& r == (GetResponse::AwaitBuild { module })
    } else {
        &&& ResponseCache::spec_begin(pre.in_flight@, post.in_flight@, cache_key, true)
        &&& r == (GetResponse::InvokeRule { module })
    }
}

} // verus!
