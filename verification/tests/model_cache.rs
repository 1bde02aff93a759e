use neural_bridge::cache::CachedModel;
use neural_bridge::cache::ModelCache;
use neural_bridge::cache::ModelMetadata;

fn handle(name: &str, bytes: usize, last_accessed: u64) -> CachedModel {
    CachedModel {
        name: name.to_string(),
        model_data: vec![0u8; bytes],
        metadata: ModelMetadata {
            name: name.to_string(),
            model_type: "LSTM".to_string(),
            version: "1.0.0".to_string(),
            created_at: 1_700_000_000_000,
            trained_on: "historical_market_data".to_string(),
            features: vec!["price".to_string()],
            hyperparameters: Vec::new(),
        },
        last_accessed,
        access_count: 0,
    }
}

#[test]
fn insert_and_get() {
    let mut cache = ModelCache::new(4);
    cache.insert("alpha".to_string(), handle("alpha", 16, 100));
    assert!(cache.contains("alpha"));
    assert!(!cache.contains("beta"));
    let got = cache.get("alpha", 200).expect("resident");
    assert_eq!(got.name, "alpha");
    assert_eq!(got.last_accessed, 200);
    assert_eq!(got.access_count, 1);
    assert_eq!(cache.size(), 1);
    assert_eq!(cache.max_size(), 4);
}

#[test]
fn get_touch_increments_and_keeps_content() {
    let mut cache = ModelCache::new(2);
    cache.insert("alpha".to_string(), handle("alpha", 16, 100));
    let first = cache.get("alpha", 150).expect("resident");
    let second = cache.get("alpha", 250).expect("resident");
    assert_eq!(first.access_count, 1);
    assert_eq!(second.access_count, 2);
    assert!(second.last_accessed > first.last_accessed);
    assert_eq!(second.name, first.name);
    assert_eq!(second.model_data, first.model_data);
    assert_eq!(second.metadata.model_type, "LSTM");
}

#[test]
fn full_cache_evicts_oldest_access() {
    let mut cache = ModelCache::new(2);
    cache.insert("old".to_string(), handle("old", 8, 10));
    cache.insert("mid".to_string(), handle("mid", 8, 20));
    cache.insert("new".to_string(), handle("new", 8, 30));
    assert_eq!(cache.size(), 2);
    assert!(!cache.contains("old"));
    assert!(cache.contains("mid"));
    assert!(cache.contains("new"));
}

#[test]
fn recency_bump_changes_eviction_victim() {
    let mut cache = ModelCache::new(2);
    cache.insert("alpha".to_string(), handle("alpha", 8, 10));
    cache.insert("beta".to_string(), handle("beta", 8, 20));
    cache.get("alpha", 50);
    cache.insert("gamma".to_string(), handle("gamma", 8, 60));
    assert!(cache.contains("alpha"));
    assert!(!cache.contains("beta"));
    assert!(cache.contains("gamma"));
}

#[test]
fn eviction_tie_takes_first_in_order() {
    let mut cache = ModelCache::new(2);
    cache.insert("first".to_string(), handle("first", 8, 10));
    cache.insert("second".to_string(), handle("second", 8, 10));
    cache.insert("third".to_string(), handle("third", 8, 10));
    assert!(!cache.contains("first"));
    assert!(cache.contains("second"));
    assert!(cache.contains("third"));
}

#[test]
fn insert_existing_key_replaces() {
    let mut cache = ModelCache::new(4);
    cache.insert("alpha".to_string(), handle("alpha", 8, 10));
    cache.insert("alpha".to_string(), handle("alpha", 32, 99));
    assert_eq!(cache.size(), 1);
    let got = cache.get("alpha", 100).expect("resident");
    assert_eq!(got.model_data.len(), 32);
}

#[test]
fn remove_and_clear() {
    let mut cache = ModelCache::new(4);
    cache.insert("alpha".to_string(), handle("alpha", 8, 10));
    cache.insert("beta".to_string(), handle("beta", 8, 20));
    let removed = cache.remove("alpha").expect("present");
    assert_eq!(removed.name, "alpha");
    assert!(cache.remove("alpha").is_none());
    assert_eq!(cache.size(), 1);
    cache.clear();
    assert_eq!(cache.size(), 0);
    assert_eq!(cache.max_size(), 4);
}

#[test]
fn list_models_in_storage_order() {
    let mut cache = ModelCache::new(4);
    cache.insert("alpha".to_string(), handle("alpha", 8, 10));
    cache.insert("beta".to_string(), handle("beta", 8, 20));
    assert_eq!(cache.list_models(), vec!["alpha".to_string(), "beta".to_string()]);
}

#[test]
fn stats_totals() {
    let mut cache = ModelCache::new(4);
    cache.insert("alpha".to_string(), handle("alpha", 1024, 10));
    cache.insert("beta".to_string(), handle("beta", 2048, 20));
    cache.get("alpha", 30);
    cache.get("alpha", 40);
    cache.get("beta", 50);
    let stats = cache.stats();
    assert_eq!(stats.total_models, 2);
    assert_eq!(stats.total_memory_bytes, 3072);
    assert_eq!(stats.total_accesses, 3);
    assert_eq!(stats.memory_usage_mb(), 0);
}

#[test]
fn memory_usage_in_whole_mebibytes() {
    let mut cache = ModelCache::new(2);
    cache.insert("big".to_string(), handle("big", 3 * 1024 * 1024 + 17, 10));
    let stats = cache.stats();
    assert_eq!(stats.memory_usage_mb(), 3);
}
