use weathercli::cache;
use weathercli::cache::{prune, read, update_hits, Cache, CacheRow};
use weathercli::error::WeatherError;
use weathercli::json::JsonValue;

fn row(key: &str, date: Option<u64>, hits: u64) -> CacheRow {
    CacheRow { key: key.to_string(), value: format!("v-{key}"), date, hits }
}

fn keys(cache: &Cache) -> Vec<String> {
    cache.rows().iter().map(|r| r.key.clone()).collect()
}

#[test]
fn test_write_read() {
    let key: String = "Xq7Lm2p".to_string();
    let value: String = "R4tY8uI".to_string();
    let mut cache = Cache::new();
    cache::write(&mut cache, &key, &value, 1_000);
    let r = read(&cache, &key);
    assert!(r.is_ok());
    assert_eq!(r.unwrap(), value);
}

#[test]
fn read_missing_key_is_not_found() {
    let cache = Cache::new();
    assert!(matches!(read(&cache, "absent"), Err(WeatherError::NotFound(_))));
}

#[test]
fn second_write_replaces_value_and_keeps_row_count() {
    let mut cache = Cache::new();
    cache::write(&mut cache, "a", "1", 10);
    cache::write(&mut cache, "b", "2", 11);
    let n = cache.len();
    cache::write(&mut cache, "a", "3", 12);
    assert_eq!(cache.len(), n);
    assert_eq!(read(&cache, "a").unwrap(), "3");
    let a = &cache.rows()[0];
    assert_eq!(a.date, Some(12));
    assert_eq!(a.hits, 0);
}

#[test]
fn update_hits_counts_and_refreshes_date() {
    let mut cache = Cache::new();
    cache::write(&mut cache, "k", "v", 5);
    update_hits(&mut cache, "k", 7).unwrap();
    update_hits(&mut cache, "k", 9).unwrap();
    assert_eq!(cache.len(), 1);
    assert_eq!(cache.rows()[0].hits, 2);
    assert_eq!(cache.rows()[0].date, Some(9));
    assert!(matches!(update_hits(&mut cache, "other", 9), Err(WeatherError::NotFound(_))));
}

#[test]
fn from_rows_refuses_duplicate_keys() {
    let rows = vec![row("a", Some(1), 0), row("a", Some(2), 0)];
    assert!(matches!(Cache::from_rows(rows), Err(WeatherError::Serialization(_))));
}

#[test]
fn prune_evicts_oldest_then_keeps_hit_row() {
    let rows: Vec<CacheRow> = (0..=100u64).map(|i| row(&format!("k{i}"), Some(i), 0)).collect();
    let mut cache = Cache::from_rows(rows).unwrap();
    prune(&mut cache, 1_000);
    assert_eq!(cache.len(), 100);
    let ks = keys(&cache);
    assert!(!ks.contains(&"k0".to_string()));
    assert!(ks.contains(&"k1".to_string()));

    let mut rows: Vec<CacheRow> = cache
        .rows()
        .iter()
        .map(|r| CacheRow { key: r.key.clone(), value: r.value.clone(), date: r.date, hits: r.hits })
        .collect();
    for r in rows.iter_mut() {
        if r.key == "k50" {
            r.hits = 10;
        }
    }
    let mut cache = Cache::from_rows(rows).unwrap();
    cache::write(&mut cache, "k101", "new", 1_000);
    assert_eq!(cache.len(), 101);
    prune(&mut cache, 1_000);
    assert_eq!(cache.len(), 100);
    let ks = keys(&cache);
    assert!(ks.contains(&"k50".to_string()));
    assert!(ks.contains(&"k101".to_string()));
    assert!(!ks.contains(&"k1".to_string()));
}

#[test]
fn prune_leaves_small_cache_alone() {
    let rows: Vec<CacheRow> = (0..5u64).map(|i| row(&format!("k{i}"), Some(i), 0)).collect();
    let mut cache = Cache::from_rows(rows).unwrap();
    prune(&mut cache, 100);
    assert_eq!(cache.len(), 5);
}

#[test]
fn prune_bounds_row_count() {
    let rows: Vec<CacheRow> = (0..250u64).map(|i| row(&format!("k{i}"), Some(i * 7), i % 3)).collect();
    let mut cache = Cache::from_rows(rows).unwrap();
    prune(&mut cache, 10_000);
    assert_eq!(cache.len(), 100);
}

#[test]
fn fewer_hits_same_date_evicted_first() {
    let mut rows: Vec<CacheRow> = Vec::new();
    for i in 0..99u64 {
        rows.push(row(&format!("busy{i}"), Some(50), 5));
    }
    rows.push(row("a", Some(10), 3));
    rows.push(row("b", Some(10), 1));
    let mut cache = Cache::from_rows(rows).unwrap();
    prune(&mut cache, 100);
    let ks = keys(&cache);
    assert!(ks.contains(&"a".to_string()));
    assert!(!ks.contains(&"b".to_string()));
}

#[test]
fn unreadable_date_evicted_first() {
    let mut rows: Vec<CacheRow> = (0..100u64).map(|i| row(&format!("k{i}"), Some(i), 0)).collect();
    rows.push(row("broken", None, 50));
    let mut cache = Cache::from_rows(rows).unwrap();
    prune(&mut cache, 1_000);
    assert!(!keys(&cache).contains(&"broken".to_string()));
    assert!(keys(&cache).contains(&"k0".to_string()));
}

#[test]
fn cache_file_round_trip() {
    let rows = vec![row("a", Some(12345), 3), row("b", None, 0)];
    let cache = Cache::from_rows(rows).unwrap();
    let stored = cache.to_json();
    match &stored {
        JsonValue::Array(v) => {
            assert_eq!(v.len(), 2);
            match &v[0] {
                JsonValue::Object(m) => {
                    assert_eq!(m[2].0, "date");
                    assert!(matches!(&m[2].1, JsonValue::Str(d) if d == "12345"));
                },
                _ => panic!("row is not an object"),
            }
        },
        _ => panic!("cache is not a list"),
    }
    let back = Cache::from_json(&stored).unwrap();
    assert_eq!(back.len(), 2);
    assert_eq!(back.rows()[0].date, Some(12345));
    assert_eq!(back.rows()[0].hits, 3);
    assert_eq!(back.rows()[1].date, None);
    assert_eq!(read(&back, "b").unwrap(), "v-b");
}

#[test]
fn cache_file_rejects_bad_rows() {
    assert!(matches!(Cache::from_json(&JsonValue::Null), Err(WeatherError::Serialization(_))));
    let bad = JsonValue::Array(vec![JsonValue::Object(vec![("key".to_string(), JsonValue::Int(1))])]);
    assert!(matches!(Cache::from_json(&bad), Err(WeatherError::Serialization(_))));
}
