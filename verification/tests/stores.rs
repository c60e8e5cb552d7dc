use live_feed::cache::{Entry, PriceCache};
use live_feed::mapping::SymbolTable;
use live_feed::record::{PriceRecord, PriceUpdate};
use live_feed::subscription::SubscriptionSet;

fn record(price: i64, at: u64) -> PriceRecord {
    PriceRecord { price, ts_event_ns: Some(at) }
}

fn cache_of(entries: &[(&str, i64)]) -> PriceCache {
    let mut cache = PriceCache::new();
    for (key, price) in entries {
        cache.put(key.to_string(), record(*price, 1));
    }
    cache
}

fn keys_of(cache: &PriceCache) -> Vec<String> {
    let mut keys: Vec<String> = cache.entries().into_iter().map(|entry| entry.key).collect();
    keys.sort();
    keys
}

#[test]
fn cache_starts_empty() {
    let cache = PriceCache::new();
    assert!(cache.is_empty());
    assert_eq!(cache.len(), 0);
    assert_eq!(cache.get("AAPL"), None);
    assert!(!cache.contains_key("AAPL"));
}

#[test]
fn cache_get_returns_what_was_put() {
    let mut cache = PriceCache::new();
    cache.put("AAPL".to_string(), record(189_500_000_000, 17));
    assert_eq!(cache.get("AAPL"), Some(record(189_500_000_000, 17)));
    assert_eq!(cache.get("aapl"), None);
    assert!(cache.contains_key("AAPL"));
    assert!(!cache.is_empty());
    assert_eq!(cache.len(), 1);
}

#[test]
fn cache_put_overwrites() {
    let mut cache = PriceCache::new();
    cache.put("AAPL".to_string(), record(100, 20));
    cache.put("MSFT".to_string(), record(300, 21));
    cache.put("AAPL".to_string(), record(90, 10));
    assert_eq!(cache.get("AAPL"), Some(record(90, 10)));
    assert_eq!(cache.get("MSFT"), Some(record(300, 21)));
    assert_eq!(cache.len(), 2);
}

#[test]
fn cache_last_write_wins_whatever_the_timestamp() {
    let mut cache = PriceCache::new();
    cache.put("X".to_string(), record(5, 1_000));
    cache.put("X".to_string(), PriceRecord { price: 4, ts_event_ns: None });
    assert_eq!(cache.get("X"), Some(PriceRecord { price: 4, ts_event_ns: None }));
}

#[test]
fn cache_get_many_returns_exactly_the_known_keys() {
    let cache = cache_of(&[("A", 1), ("B", 2), ("C", 3)]);
    let found = cache.get_many(&vec!["A".to_string(), "B".to_string()]);
    assert_eq!(keys_of(&found), vec!["A", "B"]);
    assert_eq!(found.get("A"), cache.get("A"));
    assert_eq!(found.get("B"), cache.get("B"));
    assert_eq!(found.get("C"), None);
}

#[test]
fn cache_get_many_leaves_out_unknown_keys() {
    let cache = cache_of(&[("A", 1), ("B", 2)]);
    let found = cache.get_many(&vec!["Z".to_string(), "B".to_string(), "Y".to_string()]);
    assert_eq!(keys_of(&found), vec!["B"]);
    let none = cache.get_many(&vec![]);
    assert!(none.is_empty());
}

#[test]
fn cache_get_many_takes_a_key_twice() {
    let cache = cache_of(&[("A", 1)]);
    let found = cache.get_many(&vec!["A".to_string(), "A".to_string()]);
    assert_eq!(found.len(), 1);
    assert_eq!(found.get("A"), Some(record(1, 1)));
}

#[test]
fn cache_get_all_is_a_copy() {
    let mut cache = cache_of(&[("A", 1), ("INST:7", 2)]);
    let snapshot = cache.get_all();
    cache.put("A".to_string(), record(9, 9));
    cache.put("B".to_string(), record(3, 3));
    assert_eq!(keys_of(&snapshot), vec!["A", "INST:7"]);
    assert_eq!(snapshot.get("A"), Some(record(1, 1)));
    assert_eq!(cache.get("A"), Some(record(9, 9)));
}

#[test]
fn cache_entries_holds_every_key_once() {
    let cache = cache_of(&[("B", 2), ("A", 1), ("B", 3)]);
    assert_eq!(
        cache.entries(),
        vec![
            Entry { key: "B".to_string(), record: record(3, 1) },
            Entry { key: "A".to_string(), record: record(1, 1) },
        ]
    );
    assert!(PriceCache::new().entries().is_empty());
}

#[test]
fn cache_knows_its_instrument_keys() {
    assert!(!cache_of(&[("A", 1)]).has_instrument_keys());
    assert!(!PriceCache::new().has_instrument_keys());
    assert!(cache_of(&[("A", 1), ("INST:3", 2)]).has_instrument_keys());
}

#[test]
fn table_lookup_returns_what_was_upserted() {
    let mut table = SymbolTable::new();
    assert_eq!(table.lookup(5), None);
    assert_eq!(table.len(), 0);
    table.upsert(5, "AAPL".to_string());
    table.upsert(6, "MSFT".to_string());
    assert_eq!(table.lookup(5), Some("AAPL".to_string()));
    assert_eq!(table.lookup(6), Some("MSFT".to_string()));
    assert_eq!(table.lookup(7), None);
    assert_eq!(table.len(), 2);
}

#[test]
fn table_upsert_overwrites_one_instrument_only() {
    let mut table = SymbolTable::new();
    table.upsert(5, "AAPL".to_string());
    table.upsert(6, "MSFT".to_string());
    table.upsert(5, "AAPL.NEW".to_string());
    assert_eq!(table.lookup(5), Some("AAPL.NEW".to_string()));
    assert_eq!(table.lookup(6), Some("MSFT".to_string()));
    assert_eq!(table.len(), 2);
}

#[test]
fn set_insert_and_remove() {
    let mut set = SubscriptionSet::new();
    assert_eq!(set.len(), 0);
    assert!(set.insert("A".to_string()));
    assert!(set.insert("B".to_string()));
    assert!(!set.insert("A".to_string()));
    assert_eq!(set.len(), 2);
    assert!(set.contains("A"));
    assert!(!set.contains("a"));
    assert!(set.remove("A"));
    assert!(!set.remove("A"));
    assert!(!set.contains("A"));
    assert!(set.contains("B"));
    assert_eq!(set.to_vec(), vec!["B"]);
    set.clear();
    assert_eq!(set.len(), 0);
    assert!(!set.contains("B"));
}

#[test]
fn update_duplicate_is_equal() {
    let update = PriceUpdate { symbol: "AAPL".to_string(), price: 5, timestamp: 6 };
    assert_eq!(update.duplicate(), update);
}
