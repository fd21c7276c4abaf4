use rust_web_scrapper::cache::{Cache, CachedResponse, CACHE_TTL_MS};
use std::sync::{Arc, Mutex};

fn entry(summary: &str, word_count: usize, timestamp: i64) -> CachedResponse {
    CachedResponse { summary: summary.to_string(), word_count, timestamp }
}

#[test]
fn ttl_is_a_day() {
    assert_eq!(CACHE_TTL_MS, 24 * 60 * 60 * 1000);
}

#[test]
fn empty_cache_finds_nothing() {
    let cache = Cache::new();
    assert!(cache.get("https://example.com", 0).is_none());
}

#[test]
fn written_entry_is_read_back() {
    let mut cache = Cache::new();
    cache.put("https://example.com".to_string(), entry("# S", 7, 1_000));
    let found = cache.get("https://example.com", 1_500).unwrap();
    assert_eq!(found.summary, "# S");
    assert_eq!(found.word_count, 7);
    assert_eq!(found.timestamp, 1_000);
}

#[test]
fn entry_is_fresh_for_less_than_a_day() {
    let mut cache = Cache::new();
    cache.put("u".to_string(), entry("s", 1, 1_000));
    assert!(cache.get("u", 1_000).is_some());
    assert!(cache.get("u", 1_000 + CACHE_TTL_MS - 1).is_some());
    assert!(cache.get("u", 1_000 + CACHE_TTL_MS).is_none());
    assert!(cache.get("u", 1_000 + CACHE_TTL_MS + 1).is_none());
}

#[test]
fn stale_entry_stays_until_it_is_overwritten() {
    let mut cache = Cache::new();
    cache.put("u".to_string(), entry("old", 1, 0));
    assert!(cache.get("u", CACHE_TTL_MS).is_none());
    assert_eq!(cache.get("u", CACHE_TTL_MS - 1).unwrap().summary, "old");
    cache.put("u".to_string(), entry("new", 2, CACHE_TTL_MS));
    let found = cache.get("u", CACHE_TTL_MS).unwrap();
    assert_eq!(found.summary, "new");
    assert_eq!(found.word_count, 2);
}

#[test]
fn entry_from_the_future_is_fresh() {
    let mut cache = Cache::new();
    cache.put("u".to_string(), entry("s", 1, 5_000));
    assert!(cache.get("u", 1_000).is_some());
}

#[test]
fn extreme_times_do_not_overflow() {
    let mut cache = Cache::new();
    cache.put("early".to_string(), entry("s", 1, i64::MIN));
    cache.put("late".to_string(), entry("s", 1, i64::MAX));
    assert!(cache.get("early", i64::MAX).is_none());
    assert!(cache.get("late", i64::MIN).is_some());
}

#[test]
fn urls_are_matched_exactly() {
    let mut cache = Cache::new();
    cache.put("https://example.com".to_string(), entry("s", 1, 0));
    assert!(cache.get("https://example.com/", 0).is_none());
    assert!(cache.get("https://EXAMPLE.com", 0).is_none());
    assert!(cache.get("https://example.com", 0).is_some());
}

#[test]
fn write_leaves_other_urls_alone() {
    let mut cache = Cache::new();
    cache.put("a".to_string(), entry("for a", 1, 0));
    cache.put("b".to_string(), entry("for b", 2, 0));
    assert_eq!(cache.get("a", 0).unwrap().summary, "for a");
    assert_eq!(cache.get("b", 0).unwrap().summary, "for b");
}

#[test]
fn snapshot_is_a_copy() {
    let source = entry("text", 3, 9);
    let copy = source.snapshot();
    assert_eq!(copy.summary, source.summary);
    assert_eq!(copy.word_count, source.word_count);
    assert_eq!(copy.timestamp, source.timestamp);
}

#[test]
fn interleaved_callers_lose_no_entry() {
    let cache = Arc::new(Mutex::new(Cache::new()));
    let callers: Vec<Arc<Mutex<Cache>>> = (0..10).map(|_| Arc::clone(&cache)).collect();
    for slot in 0..10usize {
        for (caller, shared) in callers.iter().enumerate() {
            let number = caller * 10 + slot;
            let url = format!("https://example.com/{}", number);
            shared.lock().unwrap().put(url.clone(), entry("first", 0, 0));
            let other = &callers[(caller + 1) % callers.len()];
            other.lock().unwrap().put(url.clone(), entry(&format!("summary {}", number), number, 1));
            let found = shared.lock().unwrap().get(&url, 2).unwrap();
            assert_eq!(found.summary, format!("summary {}", number));
            assert_eq!(found.word_count, number);
        }
    }
    let guard = cache.lock().unwrap();
    for number in 0..100usize {
        let found = guard.get(&format!("https://example.com/{}", number), 2).unwrap();
        assert_eq!(found.summary, format!("summary {}", number));
        assert_eq!(found.word_count, number);
        assert_eq!(found.timestamp, 1);
    }
}
