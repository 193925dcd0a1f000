use tlong::codec::generate;
use tlong::errors::ServiceError;
use tlong::service::{
    resolve_after_cache, resolve_after_store, create_request, AfterCache, CacheLookupOutcome,
    Service, StoreLookupOutcome,
};
use tlong::store::{InsertOutcome, MappingStore};

#[test]
fn create_then_resolve_returns_the_url() {
    let mut s = Service::new();
    let url = String::from("https://example.com/a");
    let code = s.create(&url).unwrap();
    assert_eq!(code.len(), 8);
    let resolved = s.resolve(&code, 0, true).unwrap();
    assert_eq!(resolved, url);
}

#[test]
fn second_create_returns_same_code() {
    let mut s = Service::new();
    let url = String::from("https://example.com/a");
    let c1 = s.create(&url).unwrap();
    let c2 = s.create(&url).unwrap();
    assert_eq!(c1, c2);
    assert_eq!(s.list().len(), 1);
}

#[test]
fn resolve_unknown_valid_code_is_not_found() {
    let mut s = Service::new();
    assert_eq!(s.resolve(&String::from("abcdefgh"), 0, true), Err(ServiceError::NotFound));
}

#[test]
fn resolve_malformed_code_is_invalid_input() {
    let mut s = Service::new();
    assert_eq!(s.resolve(&String::from("abcde"), 0, true), Err(ServiceError::InvalidInput));
}

#[test]
fn create_invalid_url_is_invalid_input() {
    let mut s = Service::new();
    assert_eq!(s.create(&String::from("not a url")), Err(ServiceError::InvalidInput));
    assert_eq!(s.list().len(), 0);
}

#[test]
fn resolve_answer_is_same_with_and_without_cache() {
    let url = String::from("https://example.com/a");
    let mut with_cache = Service::new();
    let mut without_cache = Service::new();
    let code = with_cache.create(&url).unwrap();
    without_cache.create(&url).unwrap();
    let r1 = with_cache.resolve(&code, 0, true);
    let r2 = with_cache.resolve(&code, 0, true); // now answered from the cache
    let r3 = without_cache.resolve(&code, 0, false);
    assert_eq!(r1, Ok(url.clone()));
    assert_eq!(r2, Ok(url.clone()));
    assert_eq!(r3, Ok(url));
}

#[test]
fn delete_then_resolve_is_not_found() {
    let mut s = Service::new();
    let url = String::from("https://example.com/a");
    let code = s.create(&url).unwrap();
    assert_eq!(s.delete(&code), Ok(()));
    assert_eq!(s.resolve(&code, 0, false), Err(ServiceError::NotFound));
    assert_eq!(s.delete(&code), Err(ServiceError::NotFound));
}

#[test]
fn delete_malformed_code_is_invalid_input() {
    let mut s = Service::new();
    assert_eq!(s.delete(&String::from("abc")), Err(ServiceError::InvalidInput));
}

#[test]
fn deleted_mapping_stays_resolvable_from_cache_until_expiry() {
    let mut s = Service::new();
    let url = String::from("https://example.com/a");
    let code = s.create(&url).unwrap();
    // a store-backed read at tick 0 populates the cache
    assert_eq!(s.resolve(&code, 0, true), Ok(url.clone()));
    assert_eq!(s.delete(&code), Ok(()));
    // within the TTL the stale entry still answers
    assert_eq!(s.resolve(&code, 1, true), Ok(url));
    // after the TTL the entry has expired and the store is authoritative
    assert_eq!(s.resolve(&code, 3600, true), Err(ServiceError::NotFound));
}

#[test]
fn list_is_newest_first() {
    let mut s = Service::new();
    let a = String::from("https://example.com/a");
    let b = String::from("https://example.com/b");
    let code_a = s.create(&a).unwrap();
    let code_b = s.create(&b).unwrap();
    let all = s.list();
    assert_eq!(all.len(), 2);
    assert_eq!(all[0].short_code, code_b);
    assert_eq!(all[0].long_url, b);
    assert_eq!(all[1].short_code, code_a);
    assert_eq!(all[1].long_url, a);
    assert!(all[0].created_at > all[1].created_at);
}

#[test]
fn detail_reads_the_store_directly() {
    let mut s = Service::new();
    let url = String::from("https://example.com/a");
    let code = s.create(&url).unwrap();
    let d = s.detail(&code).unwrap();
    assert_eq!(d.short_code, code);
    assert_eq!(d.long_url, url);
    assert!(matches!(s.detail(&String::from("abcdefgh")), Err(ServiceError::NotFound)));
    assert!(matches!(s.detail(&String::from("x")), Err(ServiceError::InvalidInput)));
}

#[test]
fn store_conflict_keeps_first_writer() {
    let mut store = MappingStore::new();
    let code = String::from("abcdefgh");
    let first = String::from("https://example.com/first");
    let second = String::from("https://example.com/second");
    assert_eq!(store.insert_if_absent(&first, &code), InsertOutcome::Inserted);
    assert_eq!(store.insert_if_absent(&second, &code), InsertOutcome::Conflict);
    let row = store.find(&code).unwrap();
    assert_eq!(row.long_url, first);
}

#[test]
fn create_request_derives_the_code() {
    let url = String::from("https://example.com/a");
    assert_eq!(create_request(&url), Ok(generate(&url)));
    assert_eq!(
        create_request(&String::from("no scheme")),
        Err(ServiceError::InvalidInput)
    );
}

#[test]
fn read_path_decisions_follow_the_protocol() {
    let url = String::from("https://example.com/a");
    match resolve_after_cache(CacheLookupOutcome::Hit(url.clone())) {
        AfterCache::Respond(u) => assert_eq!(u, url),
        AfterCache::QueryStore => panic!("a cache hit must answer immediately"),
    }
    assert!(matches!(resolve_after_cache(CacheLookupOutcome::Miss), AfterCache::QueryStore));
    // cache unavailability is degraded to a miss, never an error
    assert!(matches!(
        resolve_after_cache(CacheLookupOutcome::Unavailable),
        AfterCache::QueryStore
    ));
    assert_eq!(
        resolve_after_store(StoreLookupOutcome::Found(url.clone())),
        Ok((url, true))
    );
    assert_eq!(
        resolve_after_store(StoreLookupOutcome::Missing),
        Err(ServiceError::NotFound)
    );
    assert_eq!(
        resolve_after_store(StoreLookupOutcome::Unavailable),
        Err(ServiceError::StoreUnavailable)
    );
}
