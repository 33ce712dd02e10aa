//! The model registry: configuration rows, vendor dispatch, and the
//! process-wide adapter cache.
//!
//! Resolving a logical model id goes through the cache; on a miss the caller
//! loads the configuration row, builds the adapter description (decrypting
//! the stored key material), and admits it. Administrative mutations clear
//! the cache, so the next resolution re-instantiates.

use vstd::prelude::*;

use crate::crypto::{envelope_of, Crypto};
use crate::errors::GatewayError;
use crate::kv::{
    has_key, key_idx, kv_find, lemma_key_idx, lemma_key_idx_push, lemma_key_idx_remove,
    lemma_key_idx_same_keys, lemma_unique_push, lemma_unique_remove, unique_keys,
};
use crate::strutil::str_eq;

verus! {

/// The backend families the gateway can talk to.
#[derive(Clone, Copy, Debug, PartialEq, Eq, Structural)]
pub enum Vendor {
    OpenAi,
    Anthropic,
    ImageWorkflow,
    Mock,
    MockFail,
}

/// The vendor a stored vendor-type text stands for.
pub open spec fn spec_vendor_from_str(s: Seq<char>) -> Option<Vendor> {
    if s == "OpenAI"@ {
        Some(Vendor::OpenAi)
    } else if s == "Anthropic"@ {
        Some(Vendor::Anthropic)
    } else if s == "ComfyUI"@ {
        Some(Vendor::ImageWorkflow)
    } else if s == "Mock"@ {
        Some(Vendor::Mock)
    } else if s == "MockFail"@ {
        Some(Vendor::MockFail)
    } else {
        None
    }
}

pub fn vendor_from_str(s: &str) -> (r: Option<Vendor>)
    ensures
        r == spec_vendor_from_str(s@),
{
    if str_eq(s, "OpenAI") {
        Some(Vendor::OpenAi)
    } else if str_eq(s, "Anthropic") {
        Some(Vendor::Anthropic)
    } else if str_eq(s, "ComfyUI") {
        Some(Vendor::ImageWorkflow)
    } else if str_eq(s, "Mock") {
        Some(Vendor::Mock)
    } else if str_eq(s, "MockFail") {
        Some(Vendor::MockFail)
    } else {
        None
    }
}

/// A stored model configuration row. `api_key` may be a secret envelope or
/// literal key material.
#[derive(Debug)]
pub struct ModelConfig {
    pub id: String,
    pub title: String,
    pub model_id: String,
    pub api_key: String,
    pub base_url: String,
    pub vendor_type: String,
    pub cost_per_1k_tokens: i64,
    pub request_script: Option<String>,
    pub response_script: Option<String>,
    pub is_active: bool,
    pub created_at: i64,
}

/// Everything an adapter needs to call its backend.
#[derive(Debug)]
pub struct AdapterSpec {
    pub vendor: Vendor,
    pub model_id: String,
    pub api_key: String,
    pub base_url: String,
}

/// One resolved model: the adapter description and the optional transforms.
#[derive(Debug)]
pub struct CacheItem {
    pub adapter: AdapterSpec,
    pub request_script: Option<String>,
    pub response_script: Option<String>,
}

/// Build the adapter description of a configuration row: inactive rows and
/// unknown vendors are not found; stored key material that is an envelope
/// under the master key opens to its text, anything else is used literally.
pub fn build_cache_item(config: ModelConfig, master_key: &Vec<u8>) -> (r: Result<
    CacheItem,
    GatewayError,
>)
    requires
        master_key@.len() == 32,
    ensures
        !config.is_active ==> r == Err::<CacheItem, GatewayError>(GatewayError::ModelNotFound),
        config.is_active && spec_vendor_from_str(config.vendor_type@) is None ==> r == Err::<
            CacheItem,
            GatewayError,
        >(GatewayError::ModelNotFound),
        (config.is_active && spec_vendor_from_str(config.vendor_type@) is Some) ==> (
        r matches Ok(item) && {
            &&& item.adapter.vendor == spec_vendor_from_str(config.vendor_type@)->0
            &&& item.adapter.model_id@ == config.model_id@
            &&& item.adapter.base_url@ == config.base_url@
            &&& item.request_script == config.request_script
            &&& item.response_script == config.response_script
            &&& forall|p: Seq<char>|
                envelope_of(master_key@, config.api_key@, p) ==> item.adapter.api_key@ == p
            &&& (forall|p: Seq<char>| !envelope_of(master_key@, config.api_key@, p))
                ==> item.adapter.api_key@ == config.api_key@
        }),
{
    if !config.is_active {
        return Err(GatewayError::ModelNotFound);
    }
    let vendor = match vendor_from_str(config.vendor_type.as_str()) {
        Some(v) => v,
        None => return Err(GatewayError::ModelNotFound),
    };
    let api_key = Crypto::decrypt_or_literal(master_key, &config.api_key);
    Ok(
        CacheItem {
            adapter: AdapterSpec {
                vendor,
                model_id: config.model_id,
                api_key,
                base_url: config.base_url,
            },
            request_script: config.request_script,
            response_script: config.response_script,
        },
    )
}

/// A cached resolution and when it was admitted (monotonic milliseconds).
#[derive(Debug)]
pub struct CachedModel {
    pub item: CacheItem,
    pub inserted_at: u64,
}

/// The adapter cache: at most `capacity` entries, one per logical model id,
/// each live for `ttl_ms` after admission.
pub struct ModelCache {
    pub entries: Vec<(String, CachedModel)>,
    pub capacity: usize,
    pub ttl_ms: u64,
}

impl ModelCache {
    pub open spec fn wf(self) -> bool {
        &&& unique_keys(self.entries@)
        &&& self.entries@.len() <= self.capacity
        &&& self.capacity >= 1
    }

    pub open spec fn spec_get(self, id: Seq<char>) -> Option<CachedModel> {
        if has_key(self.entries@, id) {
            Some(self.entries@[key_idx(self.entries@, id)].1)
        } else {
            None
        }
    }

    pub fn new(capacity: usize, ttl_ms: u64) -> (r: Self)
        requires
            capacity >= 1,
        ensures
            r.wf(),
            r.capacity == capacity,
            r.ttl_ms == ttl_ms,
            forall|id: Seq<char>| r.spec_get(id) is None,
    {
        ModelCache { entries: Vec::new(), capacity, ttl_ms }
    }

    /// The live cached resolution of a model id: present and within its
    /// lifetime, or nothing.
    pub fn lookup(&self, model_id: &String, now: u64) -> (r: Option<&CacheItem>)
        ensures
            match self.spec_get(model_id@) {
                Some(cm) => {
                    if cm.inserted_at <= now && now - cm.inserted_at < self.ttl_ms {
                        r matches Some(item) && *item == cm.item
                    } else {
                        r is None
                    }
                },
                None => r is None,
            },
    {
        let found = kv_find(&self.entries, model_id);
        match found {
            None => None,
            Some(i) => {
                let cm = &self.entries[i].1;
                if cm.inserted_at <= now && now - cm.inserted_at < self.ttl_ms {
                    Some(&cm.item)
                } else {
                    None
                }
            },
        }
    }

    /// Admit a resolution under its model id, stamped now. An id already
    /// cached is replaced in place; when the cache is full the oldest entry
    /// makes room, so one other id may fall out.
    pub fn insert(&mut self, model_id: String, item: CacheItem, now: u64)
        requires
            old(self).wf(),
        ensures
            final(self).wf(),
            final(self).capacity == old(self).capacity,
            final(self).ttl_ms == old(self).ttl_ms,
            final(self).spec_get(model_id@) matches Some(cm) && cm.item == item && cm.inserted_at
                == now,
            forall|id: Seq<char>|
                id != model_id@ ==> (final(self).spec_get(id) == old(self).spec_get(id)
                    || final(self).spec_get(id) is None),
    {
        let found = kv_find(&self.entries, &model_id);
        let ghost s0 = self.entries@;
        match found {
            Some(i) => {
                let _ = self.entries.remove(i);
                self.entries.insert(i, (model_id, CachedModel { item, inserted_at: now }));
                proof {
                    let s1 = self.entries@;
                    assert(s1 =~= s0.update(i as int, s1[i as int]));
                    assert(forall|j: int| 0 <= j < s0.len() ==> s1[j].0@ == s0[j].0@);
                    assert forall|n: Seq<char>| key_idx(s1, n) == key_idx(s0, n) by {
                        lemma_key_idx_same_keys(s1, s0, n);
                    }
                    assert forall|n: Seq<char>|
                        n != s1[i as int].0@ implies self.spec_get(n) == old(self).spec_get(n) by {
                        lemma_key_idx(s0, n);
                    }
                }
            },
            None => {
                if self.entries.len() == self.capacity {
                    let _ = self.entries.remove(0);
                    proof {
                        lemma_unique_remove(s0, 0);
                        assert forall|n: Seq<char>|
                            n != s0[0].0@ implies self.spec_get(n) == old(self).spec_get(n) by {
                            lemma_key_idx_remove(s0, 0, n);
                            lemma_key_idx(s0, n);
                            let t = s0.remove(0);
                            lemma_key_idx(t, n);
                            if key_idx(s0, n) != -1 {
                                assert(t[key_idx(t, n)] == s0[key_idx(s0, n)]);
                            }
                        }
                        assert(self.entries@ == s0.remove(0));
                        lemma_key_idx(self.entries@, s0[0].0@);
                        if key_idx(self.entries@, s0[0].0@) != -1 {
                            let j = key_idx(self.entries@, s0[0].0@);
                            assert(self.entries@[j] == s0[j + 1]);
                            assert(false);
                        }
                        lemma_key_idx(s0, model_id@);
                        lemma_key_idx(self.entries@, model_id@);
                        if key_idx(self.entries@, model_id@) != -1 {
                            let j = key_idx(self.entries@, model_id@);
                            assert(self.entries@[j] == s0[j + 1]);
                            assert(false);
                        }
                    }
                }
                let ghost s2 = self.entries@;
                self.entries.push((model_id, CachedModel { item, inserted_at: now }));
                proof {
                    let s3 = self.entries@;
                    lemma_unique_push(s2, s3[s2.len() as int]);
                    lemma_key_idx_push(s2, s3[s2.len() as int], s3[s2.len() as int].0@);
                    assert forall|n: Seq<char>|
                        n != s3[s2.len() as int].0@ implies (self.spec_get(n) == old(
                        self,
                    ).spec_get(n) || self.spec_get(n) is None) by {
                        lemma_key_idx_push(s2, s3[s2.len() as int], n);
                        lemma_key_idx(s2, n);
                        if key_idx(s2, n) >= 0 {
                            assert(s3[key_idx(s2, n)] == s2[key_idx(s2, n)]);
                        }
                    }
                }
            },
        }
    }

    /// Drop every entry: required after any administrative model mutation,
    /// so the next resolution re-instantiates from the store.
    pub fn clear(&mut self)
        requires
            old(self).wf(),
        ensures
            final(self).wf(),
            final(self).capacity == old(self).capacity,
            final(self).ttl_ms == old(self).ttl_ms,
            final(self).entries@.len() == 0,
            forall|id: Seq<char>| final(self).spec_get(id) is None,
    {
        self.entries.clear();
    }
}

/// The cache law: a model id has at most one entry at a time — two entries
/// bearing the same id are the same entry.
pub proof fn lemma_cache_entry_unique(c: ModelCache, i: int, j: int)
    requires
        c.wf(),
        0 <= i < c.entries@.len(),
        0 <= j < c.entries@.len(),
        c.entries@[i].0@ == c.entries@[j].0@,
    ensures
        i == j,
{
}

} // verus!
