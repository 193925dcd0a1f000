//! The resolution service: it orchestrates validator, code generator, fast
//! cache and authoritative store. The read path is cache-aside: consult the
//! cache, fall back to the store on a miss or on cache unavailability, and
//! backfill the cache best-effort. The write path derives the code and
//! inserts with the store's insert-if-absent conflict policy. Each
//! operation's whole behaviour is pinned to a pure transition function.

use vstd::prelude::*;

use crate::cache::{cache_lookup, cache_upsert, EntryModel, FastCache};
use crate::codec::{code_of, generate, valid_code};
use crate::errors::ServiceError;
use crate::store::{has_code, lemma_remove_code_absent, lookup, remove_code, InsertOutcome, MappingStore, RowModel, UrlMapping};
use crate::validate::{url_ok, valid_short_code, valid_url};

verus! {

/// Seconds a cache entry lives after a store-backed read populates it.
pub const CACHE_TTL_SECS: u64 = 3600;

/// What a create does: reject an invalid URL; return the derived code as a
/// no-op when a row with that code exists (idempotent create, and the
/// silent absorption of a truncation collision); fail when the store can
/// stamp no further rows; otherwise append the new row.
pub open spec fn spec_create(rows: Seq<RowModel>, stamp: u64, u: Seq<char>) -> (Result<
    Seq<char>,
    ServiceError,
>, Seq<RowModel>, u64) {
    if !url_ok(u) {
        (Err(ServiceError::InvalidInput), rows, stamp)
    } else if has_code(rows, code_of(u)) {
        (Ok(code_of(u)), rows, stamp)
    } else if stamp == u64::MAX {
        (Err(ServiceError::StoreUnavailable), rows, stamp)
    } else {
        (
            Ok(code_of(u)),
            rows.push(RowModel { long_url: u, short_code: code_of(u), created_at: stamp }),
            (stamp + 1) as u64,
        )
    }
}

/// What a resolve does: reject a malformed code before touching anything;
/// answer from the cache on a live hit; otherwise read the store, backfill
/// the cache on a hit when it is reachable, and report `NotFound` on a
/// miss. An unreachable cache only changes where the answer comes from.
pub open spec fn spec_resolve(
    rows: Seq<RowModel>,
    cache: Seq<EntryModel>,
    code: Seq<char>,
    now: u64,
    cache_up: bool,
) -> (Result<Seq<char>, ServiceError>, Seq<EntryModel>) {
    if !valid_code(code) {
        (Err(ServiceError::InvalidInput), cache)
    } else {
        let hit = if cache_up {
            cache_lookup(cache, code, now)
        } else {
            None
        };
        match hit {
            Some(u) => (Ok(u), cache),
            None => match lookup(rows, code) {
                Some(row) => (
                    Ok(row.long_url),
                    if cache_up {
                        cache_upsert(
                            cache,
                            code,
                            row.long_url,
                            now.saturating_add(CACHE_TTL_SECS),
                        )
                    } else {
                        cache
                    },
                ),
                None => (Err(ServiceError::NotFound), cache),
            },
        }
    }
}

/// What a delete does: reject a malformed code, remove the row if one
/// exists, and never touch the cache (a deleted mapping may keep resolving
/// from the cache until its entry expires — a bounded staleness window).
pub open spec fn spec_delete(rows: Seq<RowModel>, code: Seq<char>) -> (Result<
    (),
    ServiceError,
>, Seq<RowModel>) {
    if !valid_code(code) {
        (Err(ServiceError::InvalidInput), rows)
    } else if has_code(rows, code) {
        (Ok(()), remove_code(rows, code))
    } else {
        (Err(ServiceError::NotFound), rows)
    }
}

/// What a detail read does: reject a malformed code, then read the store
/// directly, bypassing the cache.
pub open spec fn spec_detail(rows: Seq<RowModel>, code: Seq<char>) -> Result<
    RowModel,
    ServiceError,
> {
    if !valid_code(code) {
        Err(ServiceError::InvalidInput)
    } else {
        match lookup(rows, code) {
            Some(row) => Ok(row),
            None => Err(ServiceError::NotFound),
        }
    }
}

/// The resolution and consistency engine: the authoritative store and the
/// fast cache, driven by the operations below.
pub struct Service {
    pub store: MappingStore,
    pub cache: FastCache,
}

impl Service {
    pub open spec fn wf(&self) -> bool {
        &&& self.store.wf()
        &&& self.cache.wf()
    }

    /// A fresh service: empty store, cold cache.
    pub fn new() -> (r: Service)
        ensures
            r.wf(),
            r.store@ == Seq::<RowModel>::empty(),
            r.cache@ == Seq::<EntryModel>::empty(),
            r.store.stamp() == 0,
    {
        Service { store: MappingStore::new(), cache: FastCache::new() }
    }

    /// Create a mapping for `long_url`: behaves exactly as [`spec_create`]
    /// on the store, and never writes the cache.
    pub fn create(&mut self, long_url: &String) -> (r: Result<String, ServiceError>)
        requires
            old(self).wf(),
        ensures
            final(self).wf(),
            final(self).cache@ == old(self).cache@,
            ({
                let (sr, rows1, stamp1) = spec_create(
                    old(self).store@,
                    old(self).store.stamp(),
                    long_url@,
                );
                &&& final(self).store@ == rows1
                &&& final(self).store.stamp() == stamp1
                &&& match r {
                    Ok(c) => sr == Ok::<Seq<char>, ServiceError>(c@) && c@ == code_of(long_url@)
                        && valid_code(c@),
                    Err(e) => sr == Err::<Seq<char>, ServiceError>(e),
                }
            }),
    {
        if !valid_url(long_url.as_str()) {
            return Err(ServiceError::InvalidInput);
        }
        let code = generate(long_url);
        match self.store.insert_if_absent(long_url, &code) {
            InsertOutcome::Inserted => Ok(code),
            InsertOutcome::Conflict => Ok(code),
            InsertOutcome::Full => Err(ServiceError::StoreUnavailable),
        }
    }

    /// Resolve a short code: behaves exactly as [`spec_resolve`], with
    /// `cache_up` saying whether the fast cache is reachable. The store is
    /// never written; the cache is written only by the backfill.
    pub fn resolve(&mut self, short_code: &String, now: u64, cache_up: bool) -> (r: Result<
        String,
        ServiceError,
    >)
        requires
            old(self).wf(),
        ensures
            final(self).wf(),
            final(self).store@ == old(self).store@,
            final(self).store.stamp() == old(self).store.stamp(),
            ({
                let (sr, cache1) = spec_resolve(
                    old(self).store@,
                    old(self).cache@,
                    short_code@,
                    now,
                    cache_up,
                );
                &&& final(self).cache@ == cache1
                &&& match r {
                    Ok(u) => sr == Ok::<Seq<char>, ServiceError>(u@),
                    Err(e) => sr == Err::<Seq<char>, ServiceError>(e),
                }
            }),
    {
        if !valid_short_code(short_code.as_str()) {
            return Err(ServiceError::InvalidInput);
        }
        if cache_up {
            if let Some(u) = self.cache.get(short_code, now) {
                return Ok(u);
            }
        }
        match self.store.find(short_code) {
            Some(m) => {
                if cache_up {
                    self.cache.set_with_ttl(short_code, &m.long_url, CACHE_TTL_SECS, now);
                }
                Ok(m.long_url)
            },
            None => Err(ServiceError::NotFound),
        }
    }

    /// Delete a mapping: behaves exactly as [`spec_delete`] on the store,
    /// and by design does not invalidate the cache.
    pub fn delete(&mut self, short_code: &String) -> (r: Result<(), ServiceError>)
        requires
            old(self).wf(),
        ensures
            final(self).wf(),
            final(self).cache@ == old(self).cache@,
            final(self).store.stamp() == old(self).store.stamp(),
            ({
                let (sr, rows1) = spec_delete(old(self).store@, short_code@);
                &&& final(self).store@ == rows1
                &&& r == sr
            }),
    {
        if !valid_short_code(short_code.as_str()) {
            return Err(ServiceError::InvalidInput);
        }
        proof {
            if !has_code(self.store@, short_code@) {
                lemma_remove_code_absent(self.store@, short_code@);
            }
        }
        if self.store.delete(short_code) {
            Ok(())
        } else {
            Err(ServiceError::NotFound)
        }
    }

    /// All mappings, newest first, read from the store alone.
    pub fn list(&self) -> (r: Vec<UrlMapping>)
        requires
            self.wf(),
        ensures
            r@.map_values(|m: UrlMapping| m@) == self.store@.reverse(),
            forall|i: int, j: int|
                0 <= i < j < r@.len() ==> (#[trigger] r@[i]@.created_at) > (#[trigger] r@[j]@.created_at),
    {
        self.store.list()
    }

    /// One mapping's detail: behaves exactly as [`spec_detail`], bypassing
    /// the cache.
    pub fn detail(&self, short_code: &String) -> (r: Result<UrlMapping, ServiceError>)
        ensures
            match r {
                Ok(m) => spec_detail(self.store@, short_code@) == Ok::<RowModel, ServiceError>(m@),
                Err(e) => spec_detail(self.store@, short_code@) == Err::<RowModel, ServiceError>(
                    e,
                ),
            },
    {
        if !valid_short_code(short_code.as_str()) {
            return Err(ServiceError::InvalidInput);
        }
        match self.store.find(short_code) {
            Some(m) => Ok(m),
            None => Err(ServiceError::NotFound),
        }
    }
}

/// What came back from asking the fast cache for a code.
pub enum CacheLookupOutcome {
    /// A live entry held this value.
    Hit(String),
    /// No live entry.
    Miss,
    /// The cache could not be reached or answered with an error.
    Unavailable,
}

/// The read path's next step after the cache was asked.
pub enum AfterCache {
    /// Answer with this URL; the store is not touched.
    Respond(String),
    /// Fall back to the authoritative store.
    QueryStore,
}

/// What came back from asking the authoritative store for a code.
pub enum StoreLookupOutcome {
    /// The row exists and maps to this URL.
    Found(String),
    /// No row carries the code.
    Missing,
    /// The store could not be reached or answered with an error.
    Unavailable,
}

/// Decide the read path's next step from the cache's answer: a hit is
/// final; a miss falls back to the store; cache unavailability is degraded
/// to a miss and never fails the resolve.
pub fn resolve_after_cache(outcome: CacheLookupOutcome) -> (r: AfterCache)
    ensures
        match outcome {
            CacheLookupOutcome::Hit(u) => r matches AfterCache::Respond(v) && v@ == u@,
            CacheLookupOutcome::Miss => r is QueryStore,
            CacheLookupOutcome::Unavailable => r is QueryStore,
        },
{
    match outcome {
        CacheLookupOutcome::Hit(u) => AfterCache::Respond(u),
        CacheLookupOutcome::Miss => AfterCache::QueryStore,
        CacheLookupOutcome::Unavailable => AfterCache::QueryStore,
    }
}

/// Decide the read path's answer from the store's: a found row answers the
/// request and asks for a best-effort cache backfill (the `true`); a
/// missing row is `NotFound`; only store unavailability fails the request.
pub fn resolve_after_store(outcome: StoreLookupOutcome) -> (r: Result<
    (String, bool),
    ServiceError,
>)
    ensures
        match outcome {
            StoreLookupOutcome::Found(u) => r matches Ok(p) && p.0@ == u@ && p.1 == true,
            StoreLookupOutcome::Missing => r matches Err(e) && e == ServiceError::NotFound,
            StoreLookupOutcome::Unavailable => r matches Err(e) && (e
                == ServiceError::StoreUnavailable),
        },
{
    match outcome {
        StoreLookupOutcome::Found(u) => Ok((u, true)),
        StoreLookupOutcome::Missing => Err(ServiceError::NotFound),
        StoreLookupOutcome::Unavailable => Err(ServiceError::StoreUnavailable),
    }
}

/// The write path up to the store: validate the URL and derive its code.
/// Exactly the syntactically valid URLs pass.
pub fn create_request(long_url: &String) -> (r: Result<String, ServiceError>)
    ensures
        url_ok(long_url@) ==> (r matches Ok(c) && c@ == code_of(long_url@) && valid_code(c@)),
        !url_ok(long_url@) ==> (r matches Err(e) && e == ServiceError::InvalidInput),
{
    if !valid_url(long_url.as_str()) {
        return Err(ServiceError::InvalidInput);
    }
    Ok(generate(long_url))
}

} // verus!
