use odin::cache::{get_cached_data, get_cached_data_at, Cache};

const SECOND: u128 = 1_000_000_000;

#[test]
fn insert_then_get_returns_value() {
    let mut cache: Cache<i32> = Cache::new(10);
    cache.insert("a".to_string(), 42);
    assert_eq!(cache.get(&"a".to_string()), Some(42));
}

#[test]
fn insert_then_immediate_get_with_zero_ttl() {
    let mut cache: Cache<String> = Cache::new(0);
    cache.insert_at("k".to_string(), "v".to_string(), 77);
    assert_eq!(cache.get_at(&"k".to_string(), 77), Some("v".to_string()));
    assert_eq!(cache.get_at(&"k".to_string(), 78), None);
}

#[test]
fn get_of_unknown_key_is_none() {
    let mut cache: Cache<u8> = Cache::new(10);
    cache.insert_at("a".to_string(), 1, 0);
    assert_eq!(cache.get_at(&"b".to_string(), 0), None);
    assert_eq!(cache.get_at(&"".to_string(), 0), None);
}

#[test]
fn insert_overwrites_and_keeps_other_keys() {
    let mut cache: Cache<u8> = Cache::new(10);
    cache.insert_at("a".to_string(), 1, 0);
    cache.insert_at("b".to_string(), 2, 0);
    cache.insert_at("a".to_string(), 3, 5);
    assert_eq!(cache.len(), 2);
    assert_eq!(cache.get_at(&"a".to_string(), 5), Some(3));
    assert_eq!(cache.get_at(&"b".to_string(), 5), Some(2));
}

#[test]
fn entry_expires_exactly_after_ttl() {
    let mut cache: Cache<u8> = Cache::new(2);
    cache.insert_at("a".to_string(), 9, 10 * SECOND);
    assert_eq!(cache.get_at(&"a".to_string(), 12 * SECOND), Some(9));
    assert_eq!(cache.get_at(&"a".to_string(), 12 * SECOND + 1), None);
    // a clock reading before the write counts as age zero
    assert_eq!(cache.get_at(&"a".to_string(), 0), Some(9));
}

#[test]
fn expired_entry_is_absent_without_remove_expired() {
    let mut cache: Cache<u8> = Cache::new(1);
    cache.insert_at("a".to_string(), 9, 0);
    assert_eq!(cache.len(), 1);
    assert_eq!(cache.get_at(&"a".to_string(), 5 * SECOND), None);
    assert_eq!(cache.len(), 1);
    cache.remove_expired_at(5 * SECOND);
    assert_eq!(cache.len(), 0);
    assert_eq!(cache.get_at(&"a".to_string(), 5 * SECOND), None);
}

#[test]
fn remove_expired_keeps_live_entries_in_order() {
    let mut cache: Cache<u32> = Cache::new(10);
    cache.insert_at("k1".to_string(), 1, 0);
    cache.insert_at("k2".to_string(), 2, 5 * SECOND);
    cache.insert_at("k3".to_string(), 3, 0);
    cache.insert_at("k4".to_string(), 4, 8 * SECOND);
    cache.remove_expired_at(12 * SECOND);
    assert_eq!(cache.len(), 2);
    assert_eq!(cache.most_recent_at(10, 12 * SECOND), vec![4, 2]);
}

#[test]
fn most_recent_is_bounded_and_skips_expired() {
    let mut cache: Cache<u32> = Cache::new(10);
    cache.insert_at("k1".to_string(), 1, 0);
    cache.insert_at("k2".to_string(), 2, 5 * SECOND);
    cache.insert_at("k3".to_string(), 3, 0);
    cache.insert_at("k4".to_string(), 4, 8 * SECOND);
    cache.insert_at("k5".to_string(), 5, 9 * SECOND);
    assert_eq!(cache.most_recent_at(0, 9 * SECOND), Vec::<u32>::new());
    assert_eq!(cache.most_recent_at(2, 9 * SECOND), vec![5, 4]);
    assert_eq!(cache.most_recent_at(9, 9 * SECOND), vec![5, 4, 3, 2, 1]);
    // at 12 s the entries written at 0 s have expired
    assert_eq!(cache.most_recent_at(9, 12 * SECOND), vec![5, 4, 2]);
    assert_eq!(cache.most_recent_at(2, 12 * SECOND), vec![5, 4]);
    assert_eq!(cache.most_recent_at(3, 19 * SECOND + 1), Vec::<u32>::new());
}

#[test]
fn most_recent_reads_the_clock() {
    let mut cache: Cache<u32> = Cache::new(60);
    cache.insert("b".to_string(), 2);
    cache.insert("a".to_string(), 1);
    assert_eq!(cache.most_recent(1), vec![2]);
    cache.remove_expired();
    assert_eq!(cache.most_recent(5), vec![2, 1]);
}

#[test]
fn keys_are_ordered_by_code_point() {
    let mut cache: Cache<u32> = Cache::new(1);
    cache.insert_at("b".to_string(), 1, 0);
    cache.insert_at("B".to_string(), 2, 0);
    cache.insert_at("ab".to_string(), 3, 0);
    cache.insert_at("a".to_string(), 4, 0);
    cache.insert_at("\u{e9}".to_string(), 5, 0);
    cache.insert_at("".to_string(), 6, 0);
    assert_eq!(cache.most_recent_at(10, 0), vec![5, 1, 3, 4, 2, 6]);
}

#[test]
fn cached_data_is_newest_first() {
    let mut cache: Cache<u32> = Cache::new(1);
    cache.insert_at("k1".to_string(), 1, 0);
    cache.insert_at("k3".to_string(), 3, 0);
    cache.insert_at("k2".to_string(), 2, 0);
    assert_eq!(get_cached_data_at(&cache, 0), vec![3, 2, 1]);
}

#[test]
fn cached_data_looks_at_five_greatest_keys() {
    let mut cache: Cache<u32> = Cache::new(10);
    for i in 1..=7u32 {
        // the two greatest keys are written first and expire first
        let at = if i >= 6 { 0 } else { 5 * SECOND };
        cache.insert_at(format!("k{}", i), i, at);
    }
    assert_eq!(get_cached_data_at(&cache, 5 * SECOND), vec![7, 6, 5, 4, 3]);
    assert_eq!(get_cached_data_at(&cache, 12 * SECOND), vec![5, 4, 3]);
    assert_eq!(cache.most_recent_at(5, 12 * SECOND), vec![5, 4, 3, 2, 1]);
}

#[test]
fn cached_data_reads_the_clock() {
    let mut cache: Cache<u32> = Cache::new(60);
    cache.insert("x".to_string(), 7);
    assert_eq!(get_cached_data(&cache), vec![7]);
}

#[test]
fn keys_are_listed_greatest_first() {
    let mut cache: Cache<u8> = Cache::new(1);
    assert!(cache.keys().is_empty());
    cache.insert_at("m_2".to_string(), 2, 0);
    cache.insert_at("m_10".to_string(), 10, 0);
    cache.insert_at("m_1".to_string(), 1, 0);
    cache.insert_at("m_2".to_string(), 3, 0);
    assert_eq!(cache.keys(), vec!["m_2".to_string(), "m_10".to_string(), "m_1".to_string()]);
    cache.entries_descend();
    assert_eq!(cache.len(), 3);
}

#[test]
fn the_clock_does_not_run_backwards() {
    let cache: Cache<u8> = Cache::new(1);
    let first = cache.now();
    let second = cache.now();
    assert!(second >= first);
    // a store that was just made is younger than a minute
    assert!(first < 60 * SECOND);
}
