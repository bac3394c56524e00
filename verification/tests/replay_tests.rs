use syftbox_crypto_protocol::replay::{
    check_replay, enforce_replay_protection, replay_cache_key, replay_cache_version,
    replay_digest, ReplayCache, ReplayCheck, ReplayEntry, REPLAY_CACHE_MAX_ENTRIES,
    REPLAY_CACHE_VERSION,
};

fn entry(created_at: u64, digest: &str, seen_at: u64) -> ReplayEntry {
    ReplayEntry { created_at, envelope_digest: digest.to_string(), seen_at }
}

#[test]
fn replay_cache_key_joins_source_and_sender() {
    assert_eq!(replay_cache_key("/data/a.txt", "alice@example.org"), "/data/a.txt|alice@example.org");
}

#[test]
fn replay_digest_hashes_the_three_parts_in_order() {
    // SHA-256("abc")
    assert_eq!(
        replay_digest(b"a", b"b", b"c"),
        "ba7816bf8f01cfea414140de5dae2223b00361a396177a9cb410ff61f20015ad"
    );
    assert_eq!(replay_digest(b"ab", b"", b"c"), replay_digest(b"a", b"bc", b""));
    assert_ne!(replay_digest(b"a", b"b", b"c"), replay_digest(b"c", b"b", b"a"));
}

#[test]
fn new_cache_is_empty_and_current() {
    let cache = ReplayCache::new();
    assert_eq!(cache.len(), 0);
    assert_eq!(cache.version(), REPLAY_CACHE_VERSION);
    assert_eq!(replay_cache_version(), 1);
    let default = ReplayCache::default();
    assert_eq!(default.len(), 0);
    assert_eq!(default.version(), REPLAY_CACHE_VERSION);
}

#[test]
fn insert_replaces_and_remove_drops() {
    let mut cache = ReplayCache::new();
    cache.insert("k".to_string(), entry(1, "d1", 10));
    cache.insert("k".to_string(), entry(2, "d2", 20));
    cache.insert("j".to_string(), entry(3, "d3", 30));
    assert_eq!(cache.len(), 2);
    assert_eq!(cache.get("k").unwrap().envelope_digest, "d2");
    cache.remove("k");
    assert!(cache.get("k").is_none());
    assert_eq!(cache.len(), 1);
    cache.remove("missing");
    assert_eq!(cache.len(), 1);
}

#[test]
fn loaded_cache_of_other_version_is_discarded() {
    let cache = ReplayCache::from_loaded(7, vec![("k".to_string(), entry(1, "d", 1))]);
    assert_eq!(cache.len(), 0);
    assert_eq!(cache.version(), REPLAY_CACHE_VERSION);
    let cache = ReplayCache::from_loaded(
        1,
        vec![("k".to_string(), entry(1, "a", 1)), ("k".to_string(), entry(2, "b", 2)), ("j".to_string(), entry(3, "c", 3))],
    );
    assert_eq!(cache.len(), 2);
    assert_eq!(cache.get("k").unwrap().envelope_digest, "b");
}

#[test]
fn replayed_envelope_is_seen_again_and_older_one_refused() {
    let mut cache = ReplayCache::new();
    let changed = enforce_replay_protection(&mut cache, "./a.txt", "/data/a.txt", "alice", "d1", 100, 1000).unwrap();
    assert!(changed);
    let key = replay_cache_key("/data/a.txt", "alice");
    let recorded = cache.get(&key).unwrap();
    assert_eq!((recorded.created_at, recorded.seen_at), (100, 1000));
    assert_eq!(recorded.envelope_digest, "d1");

    // The same envelope again: accepted, cache untouched.
    assert_eq!(check_replay(&cache, &key, "d1", 5), ReplayCheck::AlreadySeen);
    let changed = enforce_replay_protection(&mut cache, "./a.txt", "/data/a.txt", "alice", "d1", 100, 2000).unwrap();
    assert!(!changed);
    assert_eq!(cache.get(&key).unwrap().seen_at, 1000);

    // An older, different envelope: refused.
    let err = enforce_replay_protection(&mut cache, "./a.txt", "/data/a.txt", "alice", "d0", 99, 3000).unwrap_err();
    assert_eq!(err, "replay detected for ./a.txt from alice (created_at 99 < 100)");
    assert_eq!(check_replay(&cache, &key, "d0", 99), ReplayCheck::Replayed { previous: 100 });

    // A newer one replaces the entry.
    assert!(enforce_replay_protection(&mut cache, "./a.txt", "/data/a.txt", "alice", "d2", 100, 4000).unwrap());
    assert_eq!(cache.get(&key).unwrap().envelope_digest, "d2");
    assert_eq!(cache.len(), 1);

    // Another sender of the same file has its own entry.
    assert!(enforce_replay_protection(&mut cache, "./a.txt", "/data/a.txt", "bob", "d0", 1, 5000).unwrap());
    assert_eq!(cache.len(), 2);
}

#[test]
fn trim_evicts_least_recently_seen() {
    let mut cache = ReplayCache::new();
    let n = REPLAY_CACHE_MAX_ENTRIES + 3;
    for i in 0..n {
        // seen_at runs backwards so the last inserted are the oldest.
        cache.insert(format!("k{i}"), entry(0, "d", (n - i) as u64));
    }
    assert_eq!(cache.len(), n);
    cache.trim();
    assert_eq!(cache.len(), REPLAY_CACHE_MAX_ENTRIES);
    for i in 0..3 {
        assert!(cache.get(&format!("k{}", n - 1 - i)).is_none());
    }
    assert!(cache.get("k0").is_some());
    // A second trim changes nothing.
    cache.trim();
    assert_eq!(cache.len(), REPLAY_CACHE_MAX_ENTRIES);
}

#[test]
fn entries_lists_each_key_once() {
    let mut cache = ReplayCache::new();
    cache.insert("a".to_string(), entry(1, "x", 1));
    cache.insert("b".to_string(), entry(2, "y", 2));
    cache.insert("a".to_string(), entry(3, "z", 3));
    let mut keys: Vec<&str> = cache.entries().iter().map(|(k, _)| k.as_str()).collect();
    keys.sort();
    assert_eq!(keys, vec!["a", "b"]);
}

#[test]
fn newest_entry_is_kept_when_a_full_cache_is_trimmed() {
    let mut cache = ReplayCache::new();
    for i in 0..REPLAY_CACHE_MAX_ENTRIES {
        cache.insert(format!("k{i}"), entry(0, "d", 10 + i as u64));
    }
    // A new key seen after every other entry survives the trim.
    cache.insert("fresh".to_string(), entry(5, "new", 1_000_000));
    cache.trim();
    assert_eq!(cache.len(), REPLAY_CACHE_MAX_ENTRIES);
    let fresh = cache.get("fresh").unwrap();
    assert_eq!((fresh.created_at, fresh.envelope_digest.as_str(), fresh.seen_at), (5, "new", 1_000_000));
    assert!(cache.get("k0").is_none());
    // Replacing an existing key in a full cache keeps it too.
    cache.insert("k5".to_string(), entry(7, "again", 1));
    cache.trim();
    let again = cache.get("k5").unwrap();
    assert_eq!((again.created_at, again.envelope_digest.as_str(), again.seen_at), (7, "again", 1));
    assert_eq!(cache.len(), REPLAY_CACHE_MAX_ENTRIES);
}
