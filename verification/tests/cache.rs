use poe2openai::cache::{
    cache_base64, cache_url, count_entry, decide_lookup, estimate_base64_size, get_cached_base64,
    get_cached_url, load_config_sled, refresh_url_cache_ttl, remove_config_sled,
    save_config_sled, stored_document, CacheError, CacheStore, Lookup, DEFAULT_CACHE_MB,
    DEFAULT_TTL_SECS,
};
use poe2openai::ledger::Counted;

fn store(ttl: u64, max_bytes: usize) -> CacheStore {
    CacheStore::open(ttl, max_bytes).expect("store")
}

#[test]
fn defaults() {
    assert_eq!(DEFAULT_TTL_SECS, 3 * 24 * 60 * 60);
    assert_eq!(DEFAULT_CACHE_MB, 100);
    let s = store(DEFAULT_TTL_SECS, 1000);
    assert_eq!(s.ttl_secs(), 259200);
    assert_eq!(s.max_bytes(), 1000);
    assert!(s.healthy());
}

#[test]
fn put_then_get_within_ttl_returns_the_entry_and_renews_it() {
    let mut s = store(100, 1_000_000);
    cache_url(&mut s, "https://a/b.png", "https://pfst.cf2.poecdn.net/x:1", 500, 1000);
    assert!(s.healthy());
    let hit = get_cached_url(&mut s, "https://a/b.png", 1099).expect("hit");
    assert!(s.healthy());
    assert_eq!(hit, ("https://pfst.cf2.poecdn.net/x:1".to_string(), 500));
    let again = get_cached_url(&mut s, "https://a/b.png", 1198).expect("renewed");
    assert_eq!(again.1, 500);
    assert!(get_cached_url(&mut s, "https://a/b.png", 1298).is_none());
    assert!(get_cached_url(&mut s, "https://a/b.png", 1299).is_none());
    cache_url(&mut s, "https://a/b.png", "u", 1, 2000);
    assert_eq!(get_cached_url(&mut s, "https://a/b.png", 2000), Some(("u".to_string(), 1)));
}

#[test]
fn expired_entry_is_a_miss_and_is_removed() {
    let mut s = store(10, 1_000_000);
    cache_url(&mut s, "k", "u", 5, 100);
    assert!(get_cached_url(&mut s, "k", 110).is_none());
    assert!(s.healthy());
    assert!(get_cached_url(&mut s, "k", 105).is_none());
}

#[test]
fn unknown_key_is_a_miss() {
    let mut s = store(10, 1000);
    assert!(get_cached_url(&mut s, "nothing", 0).is_none());
    assert!(get_cached_base64(&mut s, "nothing", 0).is_none());
    assert!(s.healthy());
}

#[test]
fn the_two_caches_have_their_own_keys() {
    let mut s = store(10, 1000);
    cache_url(&mut s, "k", "from-url", 1, 0);
    cache_base64(&mut s, "k", "from-hash", 2, 0);
    assert_eq!(get_cached_url(&mut s, "k", 1), Some(("from-url".to_string(), 1)));
    assert_eq!(get_cached_base64(&mut s, "k", 1), Some(("from-hash".to_string(), 2)));
}

#[test]
fn eviction_frees_a_tenth_of_the_budget_oldest_first() {
    let mut s = store(1000, 100);
    cache_url(&mut s, "a", "ua", 40, 1);
    cache_base64(&mut s, "b", "ub", 40, 2);
    cache_url(&mut s, "c", "uc", 15, 3);
    assert!(get_cached_url(&mut s, "a", 4).is_some());
    cache_url(&mut s, "d", "ud", 10, 5);
    assert!(s.healthy());
    assert!(get_cached_base64(&mut s, "b", 6).is_none());
    assert!(get_cached_url(&mut s, "a", 6).is_some());
    assert!(get_cached_url(&mut s, "c", 6).is_some());
    assert!(get_cached_url(&mut s, "d", 6).is_some());
}

#[test]
fn eviction_goes_on_until_enough_is_free() {
    let mut s = store(1000, 100);
    cache_url(&mut s, "a", "u", 30, 1);
    cache_url(&mut s, "b", "u", 30, 2);
    cache_url(&mut s, "c", "u", 30, 3);
    cache_base64(&mut s, "d", "u", 60, 4);
    assert!(get_cached_url(&mut s, "a", 5).is_none());
    assert!(get_cached_url(&mut s, "b", 5).is_none());
    assert!(get_cached_url(&mut s, "c", 5).is_some());
    assert!(get_cached_base64(&mut s, "d", 5).is_some());
}

#[test]
fn an_entry_larger_than_the_budget_does_not_stay() {
    let mut s = store(1000, 10);
    cache_url(&mut s, "big", "u", 100, 1);
    assert!(s.healthy());
    assert!(get_cached_url(&mut s, "big", 2).is_none());
}

#[test]
fn refresh_is_a_put() {
    let mut s = store(10, 1000);
    refresh_url_cache_ttl(&mut s, "k", "u", 3, 50);
    assert_eq!(get_cached_url(&mut s, "k", 59), Some(("u".to_string(), 3)));
}

#[test]
fn expiry_saturates() {
    let mut s = store(u64::MAX, 1000);
    cache_url(&mut s, "k", "u", 1, 5);
    assert!(get_cached_url(&mut s, "k", u64::MAX - 1).is_some());
}

#[test]
fn lookups_are_decided_from_the_stored_bytes() {
    assert!(matches!(decide_lookup(&None, 0), Lookup::Miss));
    let live = Some(b"100:https://x:y:7".to_vec());
    match decide_lookup(&live, 99) {
        Lookup::Hit { url, size } => {
            assert_eq!(url, "https://x:y");
            assert_eq!(size, 7);
        }
        other => panic!("unexpected: {:?}", other),
    }
    assert!(matches!(decide_lookup(&live, 100), Lookup::Expired));
    assert!(matches!(decide_lookup(&Some(b"100:u:big".to_vec()), 1), Lookup::Miss));
    assert!(matches!(decide_lookup(&Some(b"100:u:big".to_vec()), 100), Lookup::Expired));
    assert!(matches!(decide_lookup(&Some(b"soon:u:1".to_vec()), 1), Lookup::Miss));
    assert!(matches!(decide_lookup(&Some(b"1:u".to_vec()), 0), Lookup::Miss));
    assert!(matches!(decide_lookup(&Some(vec![0xff, 0xfe]), 0), Lookup::Miss));
}

#[test]
fn only_full_records_count() {
    assert_eq!(count_entry(&b"9:u:4".to_vec()), Some(Counted { expires: 9, size: 4 }));
    assert_eq!(count_entry(&b"9:u:x".to_vec()), None);
    assert_eq!(count_entry(&b"x:u:4".to_vec()), None);
    assert_eq!(count_entry(&vec![0xc3]), None);
}

#[test]
fn configuration_documents() {
    let mut s = store(10, 1000);
    assert_eq!(load_config_sled(&s, "models.yaml"), Ok(None));
    assert!(save_config_sled(&mut s, "models.yaml", b"{\"enable\":true}").is_ok());
    assert!(s.healthy());
    assert_eq!(load_config_sled(&s, "models.yaml"), Ok(Some(b"{\"enable\":true}".to_vec())));
    remove_config_sled(&mut s, "models.yaml");
    assert!(s.healthy());
    assert_eq!(load_config_sled(&s, "models.yaml"), Ok(None));
}

#[test]
fn base64_size_is_three_quarters_rounded_up() {
    assert_eq!(estimate_base64_size("data:image/png;base64,AAAA"), 3);
    assert_eq!(estimate_base64_size("data:image/png;base64,AAAAA"), 4);
    assert_eq!(estimate_base64_size("data:image/png;base64,"), 0);
    assert_eq!(estimate_base64_size("data:image/png;base64,A"), 1);
    assert_eq!(estimate_base64_size("https://example.com/x.png"), 0);
    assert_eq!(estimate_base64_size("a;base64,AAAAAAAA;base64,rest"), 6);
}

#[test]
fn reads_of_the_store_are_reported() {
    assert_eq!(stored_document(Ok(Some(vec![1, 2]))), Ok(Some(vec![1, 2])));
    assert_eq!(stored_document(Ok(None)), Ok(None));
    assert_eq!(
        stored_document(Err(sled::Error::Unsupported("closed".to_string()))),
        Err(CacheError::Storage)
    );
}

#[test]
fn caches_within_their_budget_keep_every_entry() {
    let mut s = store(1000, 100);
    cache_url(&mut s, "a", "ua", 50, 1);
    cache_base64(&mut s, "b", "ub", 50, 2);
    assert!(s.healthy());
    assert_eq!(get_cached_url(&mut s, "a", 3), Some(("ua".to_string(), 50)));
    assert_eq!(get_cached_base64(&mut s, "b", 3), Some(("ub".to_string(), 50)));
}
