//! System-level guarantees of the resolution engine, proved over the pure
//! transition functions that the service's operations are pinned to.
//!
//! Coherence — every live cache entry agrees with the store — is the one
//! assumption several of them need. Creates and resolves preserve it;
//! a delete does not (by design the cache is not invalidated, so a deleted
//! mapping may keep resolving until its entry expires).

use vstd::prelude::*;

use crate::cache::{cache_lookup, cache_upsert, lemma_cache_upsert_entries, has_entry_value, EntryModel};
use crate::codec::{code_of, valid_code};
use crate::errors::ServiceError;
use crate::service::{spec_create, spec_resolve, CACHE_TTL_SECS};
use crate::store::{
    codes_unique, count_code, has_code, lemma_lookup_has_code, lemma_lookup_push,
    lemma_unique_count, lookup, RowModel,
};
use crate::validate::url_ok;

verus! {

/// Every cache entry still live at `now` agrees with the store: its code
/// resolves there, to the same URL.
pub open spec fn coherent(cache: Seq<EntryModel>, rows: Seq<RowModel>, now: u64) -> bool {
    forall|i: int|
        0 <= i < cache.len() && now < (#[trigger] cache[i]).expires_at ==> (lookup(
            rows,
            cache[i].short_code,
        ) matches Some(r) && r.long_url == cache[i].long_url)
}

/// A live cache hit comes from some live entry with that code and value.
proof fn lemma_cache_lookup_entry(cache: Seq<EntryModel>, code: Seq<char>, now: u64)
    ensures
        cache_lookup(cache, code, now) matches Some(v) ==> exists|i: int|
            0 <= i < cache.len() && (#[trigger] cache[i]).short_code == code && cache[i].long_url
                == v && now < cache[i].expires_at,
    decreases cache.len(),
{
    if cache.len() > 0 {
        if cache[0].short_code == code {
        } else {
            lemma_cache_lookup_entry(cache.drop_first(), code, now);
            match cache_lookup(cache, code, now) {
                Some(v) => {
                    let i = choose|i: int|
                        0 <= i < cache.drop_first().len() && (#[trigger] cache.drop_first()[i]).short_code == code && cache.drop_first()[i].long_url == v && now
                            < cache.drop_first()[i].expires_at;
                    assert(cache[i + 1] == cache.drop_first()[i]);
                },
                None => {},
            }
        }
    }
}

/// Round trip: creating a mapping for a syntactically valid URL succeeds
/// with its derived code, and resolving that code afterwards returns that
/// URL — whether or not the cache is reachable. That the derived code has
/// the minted shape is a premise here because it is a fact about the code
/// generator's output, established at every call of `generate`. The inputs
/// left out are the ones on which the system itself gives no such promise:
/// a store that can stamp no further rows, a cache that disagrees with the
/// store, and a truncation collision (an existing row under the same
/// derived code for a different URL keeps the first writer's mapping).
pub proof fn lemma_round_trip(
    rows: Seq<RowModel>,
    cache: Seq<EntryModel>,
    stamp: u64,
    u: Seq<char>,
    now: u64,
    cache_up: bool,
)
    requires
        url_ok(u),
        valid_code(code_of(u)),
        stamp < u64::MAX,
        coherent(cache, rows, now),
        lookup(rows, code_of(u)) matches Some(r) ==> r.long_url == u,
    ensures
        ({
            let (r1, rows1, stamp1) = spec_create(rows, stamp, u);
            &&& r1 == Ok::<Seq<char>, ServiceError>(code_of(u))
            &&& spec_resolve(rows1, cache, code_of(u), now, cache_up).0 == Ok::<
                Seq<char>,
                ServiceError,
            >(u)
        }),
{
    let code = code_of(u);
    let (r1, rows1, stamp1) = spec_create(rows, stamp, u);
    lemma_lookup_has_code(rows, code);
    if has_code(rows, code) {
        assert(rows1 == rows);
        assert(lookup(rows1, code) matches Some(r) && r.long_url == u);
    } else {
        let row = RowModel { long_url: u, short_code: code, created_at: stamp };
        assert(rows1 == rows.push(row));
        lemma_lookup_push(rows, code, row);
        assert(lookup(rows1, code) == Some(row));
    }
    lemma_cache_lookup_entry(cache, code, now);
    if cache_up {
        match cache_lookup(cache, code, now) {
            Some(v) => {
                let i = choose|i: int|
                    0 <= i < cache.len() && (#[trigger] cache[i]).short_code == code && cache[i].long_url == v && now < cache[i].expires_at;
                assert(lookup(rows, code) matches Some(r) && r.long_url == cache[i].long_url);
                assert(v == u);
            },
            None => {},
        }
    }
}

/// Idempotent create: creating the same valid URL twice yields the same
/// short code both times, the second create changes nothing, and exactly
/// one durable row carries that code.
pub proof fn lemma_create_idempotent(rows: Seq<RowModel>, stamp: u64, u: Seq<char>)
    requires
        codes_unique(rows),
        url_ok(u),
        stamp < u64::MAX,
    ensures
        ({
            let (r1, rows1, stamp1) = spec_create(rows, stamp, u);
            let (r2, rows2, stamp2) = spec_create(rows1, stamp1, u);
            &&& r1 == Ok::<Seq<char>, ServiceError>(code_of(u))
            &&& r2 == Ok::<Seq<char>, ServiceError>(code_of(u))
            &&& rows2 == rows1
            &&& stamp2 == stamp1
            &&& count_code(rows1, code_of(u)) == 1
        }),
{
    let code = code_of(u);
    let (r1, rows1, stamp1) = spec_create(rows, stamp, u);
    if has_code(rows, code) {
        lemma_unique_count(rows, code);
    } else {
        let row = RowModel { long_url: u, short_code: code, created_at: stamp };
        assert(rows1 == rows.push(row));
        assert(rows1[rows.len() as int] == row);
        assert(rows1[rows.len() as int].short_code == code);
        assert(has_code(rows1, code));
        assert(codes_unique(rows1)) by {
            assert(forall|i: int| 0 <= i < rows.len() ==> rows1[i] == rows[i]);
            assert(forall|i: int|
                0 <= i < rows.len() ==> (#[trigger] rows1[i].short_code) != code);
        }
        lemma_unique_count(rows1, code);
    }
}

/// Cache transparency: with a coherent cache, the answer of a resolve is
/// the same whether or not the cache is reachable; only the read path and
/// the backfill differ.
pub proof fn lemma_cache_transparency(
    rows: Seq<RowModel>,
    cache: Seq<EntryModel>,
    code: Seq<char>,
    now: u64,
)
    requires
        coherent(cache, rows, now),
    ensures
        spec_resolve(rows, cache, code, now, true).0 == spec_resolve(rows, cache, code, now, false).0,
{
    if valid_code(code) {
        lemma_cache_lookup_entry(cache, code, now);
        match cache_lookup(cache, code, now) {
            Some(v) => {
                let i = choose|i: int|
                    0 <= i < cache.len() && (#[trigger] cache[i]).short_code == code && cache[i].long_url == v && now < cache[i].expires_at;
                assert(lookup(rows, code) matches Some(r) && r.long_url == cache[i].long_url);
            },
            None => {},
        }
    }
}

/// A create preserves coherence: the row it may add changes no existing
/// code's resolution.
pub proof fn lemma_create_preserves_coherence(
    rows: Seq<RowModel>,
    cache: Seq<EntryModel>,
    stamp: u64,
    u: Seq<char>,
    now: u64,
)
    requires
        coherent(cache, rows, now),
    ensures
        coherent(cache, spec_create(rows, stamp, u).1, now),
{
    let rows1 = spec_create(rows, stamp, u).1;
    if url_ok(u) && !has_code(rows, code_of(u)) && stamp != u64::MAX {
        let row = RowModel { long_url: u, short_code: code_of(u), created_at: stamp };
        assert(rows1 == rows.push(row));
        assert forall|i: int|
            0 <= i < cache.len() && now < (#[trigger] cache[i]).expires_at implies (lookup(
            rows1,
            cache[i].short_code,
        ) matches Some(r) && r.long_url == cache[i].long_url) by {
            lemma_lookup_push(rows, cache[i].short_code, row);
        }
    } else {
        assert(rows1 == rows);
    }
}

/// A resolve preserves coherence: the only cache write is the backfill,
/// and it caches exactly what the store says.
pub proof fn lemma_resolve_preserves_coherence(
    rows: Seq<RowModel>,
    cache: Seq<EntryModel>,
    code: Seq<char>,
    now: u64,
    cache_up: bool,
)
    requires
        coherent(cache, rows, now),
    ensures
        coherent(spec_resolve(rows, cache, code, now, cache_up).1, rows, now),
{
    let cache1 = spec_resolve(rows, cache, code, now, cache_up).1;
    if valid_code(code) && cache_up && cache_lookup(cache, code, now) is None {
        match lookup(rows, code) {
            Some(row) => {
                let expires_at = now.saturating_add(CACHE_TTL_SECS);
                let e = EntryModel { short_code: code, long_url: row.long_url, expires_at };
                assert(cache1 == cache_upsert(cache, code, row.long_url, expires_at));
                lemma_cache_upsert_entries(cache, code, row.long_url, expires_at);
                assert forall|i: int|
                    0 <= i < cache1.len() && now < (#[trigger] cache1[i]).expires_at implies (
                lookup(rows, cache1[i].short_code) matches Some(r) && r.long_url == cache1[i].long_url) by {
                    if cache1[i] == e {
                    } else {
                        assert(has_entry_value(cache, cache1[i]));
                        let j = choose|j: int|
                            0 <= j < cache.len() && #[trigger] cache[j] == cache1[i];
                        assert(now < cache[j].expires_at);
                    }
                }
            },
            None => {
                assert(cache1 == cache);
            },
        }
    } else {
        assert(cache1 == cache);
    }
}

} // verus!
