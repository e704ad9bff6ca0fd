use cargo_upgrade::VersionCache;

#[test]
fn new_cache_holds_nothing() {
    let cache: VersionCache<u32> = VersionCache::new();
    assert!(!cache.contains("serde"));
    assert_eq!(cache.get("serde"), None);
}

#[test]
fn cache_holds_what_was_inserted() {
    let mut cache = VersionCache::new();
    cache.insert("serde".to_string(), 1u32);
    cache.insert("toml".to_string(), 2u32);
    assert!(cache.contains("serde"));
    assert_eq!(cache.get("serde"), Some(&1));
    assert_eq!(cache.get("toml"), Some(&2));
    assert_eq!(cache.get("docopt"), None);
}

#[test]
fn later_specifier_takes_the_place_of_an_earlier_one() {
    let mut cache = VersionCache::new();
    cache.insert("serde".to_string(), 1u32);
    cache.insert("serde".to_string(), 3u32);
    assert_eq!(cache.get("serde"), Some(&3));
}
