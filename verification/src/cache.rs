//! The fast cache: an ephemeral short-code to long-URL table with bounded
//! lifetimes. It is never authoritative: it is populated only as a side
//! effect of a store-backed read, an entry may be absent for a live
//! mapping, and an entry may outlive a deleted mapping until it expires.

use vstd::prelude::*;

verus! {

/// An ephemeral cache entry: value keyed by short code, live strictly
/// before `expires_at`.
pub struct CacheEntry {
    pub short_code: String,
    pub long_url: String,
    pub expires_at: u64,
}

/// The mathematical value of a cache entry.
pub struct EntryModel {
    pub short_code: Seq<char>,
    pub long_url: Seq<char>,
    pub expires_at: u64,
}

impl View for CacheEntry {
    type V = EntryModel;

    open spec fn view(&self) -> EntryModel {
        EntryModel {
            short_code: self.short_code@,
            long_url: self.long_url@,
            expires_at: self.expires_at,
        }
    }
}

/// Whether some entry of `entries` is keyed by `code`.
pub open spec fn has_entry(entries: Seq<EntryModel>, code: Seq<char>) -> bool {
    exists|i: int| 0 <= i < entries.len() && #[trigger] entries[i].short_code == code
}

/// The value cached under `code` and still live at `now`, if any.
pub open spec fn cache_lookup(entries: Seq<EntryModel>, code: Seq<char>, now: u64) -> Option<
    Seq<char>,
>
    decreases entries.len(),
{
    if entries.len() == 0 {
        None
    } else if entries[0].short_code == code {
        if now < entries[0].expires_at {
            Some(entries[0].long_url)
        } else {
            None
        }
    } else {
        cache_lookup(entries.drop_first(), code, now)
    }
}

/// `entries` with the entry for `code` replaced by, or extended with, an
/// entry holding `url` that expires at `expires_at`.
pub open spec fn cache_upsert(
    entries: Seq<EntryModel>,
    code: Seq<char>,
    url: Seq<char>,
    expires_at: u64,
) -> Seq<EntryModel>
    decreases entries.len(),
{
    if entries.len() == 0 {
        seq![EntryModel { short_code: code, long_url: url, expires_at }]
    } else if entries[0].short_code == code {
        seq![EntryModel { short_code: code, long_url: url, expires_at }] + entries.drop_first()
    } else {
        seq![entries[0]] + cache_upsert(entries.drop_first(), code, url, expires_at)
    }
}

/// No two entries share a short code.
pub open spec fn entry_codes_unique(entries: Seq<EntryModel>) -> bool {
    forall|i: int, j: int|
        0 <= i < j < entries.len() ==> (#[trigger] entries[i].short_code) != (
        #[trigger] entries[j].short_code)
}

/// Every live entry of an upserted cache either is the new entry or was
/// already there: upserting keeps any per-entry property that the new entry
/// also has.
pub proof fn lemma_cache_upsert_entries(
    entries: Seq<EntryModel>,
    code: Seq<char>,
    url: Seq<char>,
    expires_at: u64,
)
    ensures
        forall|i: int|
            0 <= i < cache_upsert(entries, code, url, expires_at).len() ==> (
            #[trigger] cache_upsert(entries, code, url, expires_at)[i]) == (EntryModel {
                short_code: code,
                long_url: url,
                expires_at,
            }) || has_entry_value(entries, cache_upsert(entries, code, url, expires_at)[i]),
    decreases entries.len(),
{
    let e = EntryModel { short_code: code, long_url: url, expires_at };
    let up = cache_upsert(entries, code, url, expires_at);
    if entries.len() == 0 {
        assert(up =~= seq![e]);
    } else if entries[0].short_code == code {
        assert(forall|i: int| 1 <= i < up.len() ==> up[i] == entries[i]);
    } else {
        lemma_cache_upsert_entries(entries.drop_first(), code, url, expires_at);
        let rest = cache_upsert(entries.drop_first(), code, url, expires_at);
        assert(up[0] == entries[0]);
        assert(forall|i: int| 1 <= i < up.len() ==> up[i] == rest[i - 1]);
        assert forall|i: int| 1 <= i < up.len() implies up[i] == e || has_entry_value(
            entries,
            up[i],
        ) by {
            if up[i] != e {
                assert(has_entry_value(entries.drop_first(), rest[i - 1]));
                let j = choose|j: int|
                    0 <= j < entries.drop_first().len() && #[trigger] entries.drop_first()[j]
                        == rest[i - 1];
                assert(entries[j + 1] == entries.drop_first()[j]);
            }
        }
    }
}

/// Whether `e` is one of the entries of `entries`.
pub open spec fn has_entry_value(entries: Seq<EntryModel>, e: EntryModel) -> bool {
    exists|i: int| 0 <= i < entries.len() && #[trigger] entries[i] == e
}

/// The ephemeral cache.
pub struct FastCache {
    entries: Vec<CacheEntry>,
}

impl View for FastCache {
    type V = Seq<EntryModel>;

    closed spec fn view(&self) -> Seq<EntryModel> {
        self.entries@.map_values(|e: CacheEntry| e@)
    }
}

impl FastCache {
    /// Well-formedness: entry codes unique.
    pub open spec fn wf(&self) -> bool {
        entry_codes_unique(self@)
    }

    /// An empty cache.
    pub fn new() -> (r: Self)
        ensures
            r.wf(),
            r@ == Seq::<EntryModel>::empty(),
    {
        let r = FastCache { entries: Vec::new() };
        assert(r@ =~= Seq::<EntryModel>::empty());
        r
    }

    /// Index of the entry keyed by `code`, if any.
    fn find_index(&self, code: &String) -> (r: Option<usize>)
        ensures
            match r {
                Some(i) => i < self@.len() && self@[i as int].short_code == code@ && forall|
                    j: int,
                |
                    0 <= j < i ==> (#[trigger] self@[j].short_code) != code@,
                None => !has_entry(self@, code@),
            },
    {
        let n = self.entries.len();
        for i in 0..n
            invariant
                n == self.entries.len(),
                forall|j: int| 0 <= j < i ==> (#[trigger] self@[j].short_code) != code@,
        {
            assert(self@[i as int] == self.entries@[i as int]@);
            if self.entries[i].short_code == *code {
                return Some(i);
            }
        }
        None
    }

    /// The value cached under `code` and still live at `now`, if any.
    pub fn get(&self, code: &String, now: u64) -> (r: Option<String>)
        ensures
            match r {
                Some(u) => cache_lookup(self@, code@, now) == Some(u@),
                None => cache_lookup(self@, code@, now) is None,
            },
    {
        match self.find_index(code) {
            Some(i) => {
                proof {
                    lemma_cache_lookup_at_index(self@, code@, now, i as int);
                }
                if now < self.entries[i].expires_at {
                    assert(self@[i as int] == self.entries@[i as int]@);
                    Some(self.entries[i].long_url.clone())
                } else {
                    None
                }
            },
            None => {
                proof {
                    lemma_cache_lookup_absent(self@, code@, now);
                }
                None
            },
        }
    }

    /// Cache `url` under `code` for `ttl` ticks from `now`, replacing any
    /// entry already keyed by `code`.
    pub fn set_with_ttl(&mut self, code: &String, url: &String, ttl: u64, now: u64)
        requires
            old(self).wf(),
        ensures
            final(self).wf(),
            final(self)@ == cache_upsert(old(self)@, code@, url@, now.saturating_add(ttl)),
    {
        let expires_at = now.saturating_add(ttl);
        let entry = CacheEntry { short_code: code.clone(), long_url: url.clone(), expires_at };
        let ghost e = EntryModel { short_code: code@, long_url: url@, expires_at };
        match self.find_index(code) {
            Some(i) => {
                proof {
                    lemma_cache_upsert_at_index(self@, code@, url@, expires_at, i as int);
                }
                self.entries.set(i, entry);
                proof {
                    assert(self@ =~= old(self)@.update(i as int, e));
                    assert(self@ =~= cache_upsert(old(self)@, code@, url@, expires_at));
                    assert(forall|k: int|
                        0 <= k < self@.len() && k != i as int ==> self@[k] == old(self)@[k]);
                }
            },
            None => {
                proof {
                    lemma_cache_upsert_absent(self@, code@, url@, expires_at);
                }
                self.entries.push(entry);
                proof {
                    assert(self@ =~= old(self)@.push(e));
                    assert(self@ =~= cache_upsert(old(self)@, code@, url@, expires_at));
                    let up = self@;
                    assert(forall|k: int| 0 <= k < up.len() - 1 ==> up[k] == old(self)@[k]);
                    assert(forall|i: int, j: int|
                        0 <= i < j < up.len() ==> (#[trigger] up[i].short_code) != (
                        #[trigger] up[j].short_code)) by {
                        assert(forall|k: int|
                            0 <= k < up.len() - 1 ==> (#[trigger] up[k].short_code) != code@);
                    }
                }
            },
        }
    }
}

/// When entry `i` is the first keyed by `code`, the lookup goes by that
/// entry alone.
proof fn lemma_cache_lookup_at_index(entries: Seq<EntryModel>, code: Seq<char>, now: u64, i: int)
    requires
        0 <= i < entries.len(),
        entries[i].short_code == code,
        forall|j: int| 0 <= j < i ==> (#[trigger] entries[j].short_code) != code,
    ensures
        cache_lookup(entries, code, now) == (if now < entries[i].expires_at {
            Some(entries[i].long_url)
        } else {
            None::<Seq<char>>
        }),
    decreases i,
{
    if i > 0 {
        assert(entries.drop_first()[i - 1] == entries[i]);
        assert(forall|j: int|
            0 <= j < i - 1 ==> (#[trigger] entries.drop_first()[j].short_code) != code) by {
            assert(forall|j: int|
                0 <= j < i - 1 ==> #[trigger] entries.drop_first()[j] == entries[j + 1]);
        }
        lemma_cache_lookup_at_index(entries.drop_first(), code, now, i - 1);
    }
}

/// Looking up a code with no entry finds nothing.
proof fn lemma_cache_lookup_absent(entries: Seq<EntryModel>, code: Seq<char>, now: u64)
    requires
        !has_entry(entries, code),
    ensures
        cache_lookup(entries, code, now) is None,
    decreases entries.len(),
{
    if entries.len() > 0 {
        assert(entries[0].short_code != code);
        assert(!has_entry(entries.drop_first(), code)) by {
            if has_entry(entries.drop_first(), code) {
                let j = choose|j: int|
                    0 <= j < entries.drop_first().len() && #[trigger] entries.drop_first()[j].short_code == code;
                assert(entries[j + 1] == entries.drop_first()[j]);
            }
        }
        lemma_cache_lookup_absent(entries.drop_first(), code, now);
    }
}

/// When entry `i` is the first keyed by `code`, upserting `code` is
/// updating that entry in place.
proof fn lemma_cache_upsert_at_index(
    entries: Seq<EntryModel>,
    code: Seq<char>,
    url: Seq<char>,
    expires_at: u64,
    i: int,
)
    requires
        0 <= i < entries.len(),
        entries[i].short_code == code,
        forall|j: int| 0 <= j < i ==> (#[trigger] entries[j].short_code) != code,
    ensures
        cache_upsert(entries, code, url, expires_at) == entries.update(
            i,
            EntryModel { short_code: code, long_url: url, expires_at },
        ),
    decreases i,
{
    let e = EntryModel { short_code: code, long_url: url, expires_at };
    if i == 0 {
        assert(cache_upsert(entries, code, url, expires_at) =~= entries.update(0, e));
    } else {
        assert(entries.drop_first()[i - 1] == entries[i]);
        assert(forall|j: int|
            0 <= j < i - 1 ==> (#[trigger] entries.drop_first()[j].short_code) != code) by {
            assert(forall|j: int|
                0 <= j < i - 1 ==> #[trigger] entries.drop_first()[j] == entries[j + 1]);
        }
        lemma_cache_upsert_at_index(entries.drop_first(), code, url, expires_at, i - 1);
        assert(seq![entries[0]] + entries.drop_first().update(i - 1, e) =~= entries.update(i, e));
    }
}

/// Upserting a code with no entry appends a fresh entry.
proof fn lemma_cache_upsert_absent(
    entries: Seq<EntryModel>,
    code: Seq<char>,
    url: Seq<char>,
    expires_at: u64,
)
    requires
        !has_entry(entries, code),
    ensures
        cache_upsert(entries, code, url, expires_at) == entries.push(
            EntryModel { short_code: code, long_url: url, expires_at },
        ),
    decreases entries.len(),
{
    let e = EntryModel { short_code: code, long_url: url, expires_at };
    if entries.len() == 0 {
        assert(cache_upsert(entries, code, url, expires_at) =~= entries.push(e));
    } else {
        assert(entries[0].short_code != code);
        assert(!has_entry(entries.drop_first(), code)) by {
            if has_entry(entries.drop_first(), code) {
                let j = choose|j: int|
                    0 <= j < entries.drop_first().len() && #[trigger] entries.drop_first()[j].short_code == code;
                assert(entries[j + 1] == entries.drop_first()[j]);
            }
        }
        lemma_cache_upsert_absent(entries.drop_first(), code, url, expires_at);
        assert(seq![entries[0]] + entries.drop_first().push(e) =~= entries.push(e));
    }
}

} // verus!
