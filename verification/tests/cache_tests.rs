use chitin::cache::{CacheBacking, CacheRecord, HelpCache, cache_dir_path, cache_file_path};
use chitin::errors::LauncherError;

const NOW: u64 = 1_000_000;

#[test]
fn test_cache_roundtrip() {
    let mut cache = HelpCache::new(CacheBacking::Absent);
    cache.clear();

    // No cache initially
    assert!(cache.get_cached_help("1.0.0", "0.1.0", NOW).is_none());

    // Save and retrieve main help
    cache.save_help("Test help text", "1.0.0", "0.1.0", NOW);
    let cached = cache.get_cached_help("1.0.0", "0.1.0", NOW);
    assert_eq!(cached, Some("Test help text".to_string()));

    // Wrong openclaw version returns None
    assert!(cache.get_cached_help("2.0.0", "0.1.0", NOW).is_none());

    // Wrong chitin version returns None
    assert!(cache.get_cached_help("1.0.0", "0.2.0", NOW).is_none());

    cache.clear();
}

#[test]
fn test_subcommand_cache() {
    let mut cache = HelpCache::new(CacheBacking::Absent);
    cache.clear();

    // Save main and subcommand help
    cache.save_help("Main help", "1.0.0", "0.1.0", NOW);
    cache.save_subcommand_help("gateway", "Gateway help", "1.0.0", "0.1.0", NOW);
    cache.save_subcommand_help("agent", "Agent help", "1.0.0", "0.1.0", NOW);

    // Retrieve each
    assert_eq!(
        cache.get_cached_help("1.0.0", "0.1.0", NOW),
        Some("Main help".to_string())
    );
    assert_eq!(
        cache.get_cached_subcommand_help("gateway", "1.0.0", "0.1.0", NOW),
        Some("Gateway help".to_string())
    );
    assert_eq!(
        cache.get_cached_subcommand_help("agent", "1.0.0", "0.1.0", NOW),
        Some("Agent help".to_string())
    );

    // Non-existent subcommand returns None
    assert!(
        cache
            .get_cached_subcommand_help("nonexistent", "1.0.0", "0.1.0", NOW)
            .is_none()
    );

    cache.clear();
}

#[test]
fn test_expiry() {
    let mut cache = HelpCache::new(CacheBacking::Absent);
    cache.save_help("Old help", "1.0.0", "0.1.0", NOW);

    // Still served at the maximum age
    assert_eq!(
        cache.get_cached_help("1.0.0", "0.1.0", NOW + 86400),
        Some("Old help".to_string())
    );

    // One second past the maximum age: absent despite matching versions
    assert!(cache.get_cached_help("1.0.0", "0.1.0", NOW + 86401).is_none());
}

#[test]
fn test_corrupt_backing_discarded() {
    let mut cache = HelpCache::new(CacheBacking::Corrupt);
    // A corrupt record is a miss, never an error ...
    assert!(cache.get_cached_help("1.0.0", "0.1.0", NOW).is_none());
    // ... and is disposed of: the backing file is to be removed.
    assert!(matches!(cache.backing, CacheBacking::Absent));
}

#[test]
fn test_empty_stored_launcher_version_skips_check() {
    // A record whose stored launcher version is empty is served for any
    // expected launcher version.
    let mut cache = HelpCache::new(CacheBacking::Absent);
    cache.save_help("Help text", "1.0.0", "", NOW);
    assert_eq!(
        cache.get_cached_help("1.0.0", "9.9.9", NOW),
        Some("Help text".to_string())
    );
}

#[test]
fn test_save_refreshes_versions_and_timestamp() {
    let mut cache = HelpCache::new(CacheBacking::Absent);
    cache.save_help("First", "1.0.0", "0.1.0", NOW);
    // A save under new versions starts a fresh record: the old entry is gone.
    cache.save_subcommand_help("gateway", "Second", "2.0.0", "0.1.0", NOW);
    assert!(cache.get_cached_help("1.0.0", "0.1.0", NOW).is_none());
    assert!(cache.get_cached_help("2.0.0", "0.1.0", NOW).is_none());
    assert_eq!(
        cache.get_cached_subcommand_help("gateway", "2.0.0", "0.1.0", NOW),
        Some("Second".to_string())
    );
    match &cache.backing {
        CacheBacking::Present(rec) => {
            assert_eq!(rec.openclaw_version, "2.0.0".to_string());
            assert_eq!(rec.chitin_version, "0.1.0".to_string());
            assert_eq!(rec.timestamp, NOW);
            assert_eq!(rec.entries.len(), 1);
        }
        _ => panic!("record expected"),
    }
}

#[test]
fn test_save_overwrites_entry() {
    let mut cache = HelpCache::new(CacheBacking::Absent);
    cache.save_subcommand_help("gateway", "Old text", "1.0.0", "0.1.0", NOW);
    cache.save_subcommand_help("gateway", "New text", "1.0.0", "0.1.0", NOW + 5);
    assert_eq!(
        cache.get_cached_subcommand_help("gateway", "1.0.0", "0.1.0", NOW + 5),
        Some("New text".to_string())
    );
    match &cache.backing {
        CacheBacking::Present(rec) => assert_eq!(rec.entries.len(), 1),
        _ => panic!("record expected"),
    }
}

#[test]
fn test_save_keeps_record_through_construction() {
    // A record handed to the store is served as such.
    let rec = CacheRecord {
        openclaw_version: "1.0.0".to_string(),
        chitin_version: "0.1.0".to_string(),
        timestamp: NOW,
        entries: vec![(String::new(), "Stored help".to_string())],
    };
    let mut cache = HelpCache::new(CacheBacking::Present(rec));
    assert_eq!(
        cache.get_cached_help("1.0.0", "0.1.0", NOW + 100),
        Some("Stored help".to_string())
    );
}

#[test]
fn test_cache_dir_policy() {
    // Home directory known: the fixed per-user application directory.
    assert_eq!(
        cache_dir_path(Some("/home/u".to_string()), Some("/home/u/.cache".to_string())),
        Ok("/home/u/.chitin/cache".to_string())
    );
    // No home: the platform cache directory.
    assert_eq!(
        cache_dir_path(None, Some("/var/cache".to_string())),
        Ok("/var/cache/chitin".to_string())
    );
    // Neither: a configuration failure.
    assert_eq!(cache_dir_path(None, None), Err(LauncherError::Configuration));
}

#[test]
fn test_cache_file_path() {
    assert_eq!(
        cache_file_path("/home/u/.chitin/cache"),
        "/home/u/.chitin/cache/help_cache.json".to_string()
    );
}

#[test]
fn test_error_messages() {
    assert_eq!(
        LauncherError::Configuration.message(),
        "Cannot determine cache directory".to_string()
    );
    assert_eq!(
        LauncherError::NotFound.message(),
        "Cannot find openclaw installation. Run 'openclaw' without arguments to install."
            .to_string()
    );
    assert_eq!(
        LauncherError::Persistence.message(),
        "Failed to write cache file".to_string()
    );
    assert_eq!(
        LauncherError::CorruptCache.message(),
        "Invalid cache file".to_string()
    );
    assert_eq!(
        LauncherError::Subprocess.message(),
        "Failed to run openclaw".to_string()
    );
}
