use relnotify::CacheSnapshot;
use relnotify::FetchDecision;
use relnotify::Release;
use relnotify::ReleaseCache;
use relnotify::codec::decode_snapshot;
use relnotify::codec::encode_snapshot;

fn release(tag: &str, prerelease: bool, draft: bool, published_at: Option<i64>) -> Release {
    Release {
        tag_name: tag.to_string(),
        name: Some(format!("Release {}", tag)),
        body: Some("notes".to_string()),
        prerelease,
        draft,
        html_url: format!("https://example.com/releases/tag/{}", tag),
        published_at,
    }
}

fn sample_releases() -> Vec<Release> {
    vec![
        release("v2.0.0", false, false, Some(1710496800000)),
        release("v2.1.0-beta.1", true, false, Some(1710928800000)),
    ]
}

fn assert_release_eq(a: &Release, b: &Release) {
    assert_eq!(a.tag_name, b.tag_name);
    assert_eq!(a.name, b.name);
    assert_eq!(a.body, b.body);
    assert_eq!(a.prerelease, b.prerelease);
    assert_eq!(a.draft, b.draft);
    assert_eq!(a.html_url, b.html_url);
    assert_eq!(a.published_at, b.published_at);
}

#[test]
fn test_snapshot_round_trip() {
    let snapshot = CacheSnapshot {
        releases: sample_releases(),
        last_fetch_time: 1710928800123,
    };
    let bytes = encode_snapshot(&snapshot);
    let decoded = decode_snapshot(&bytes).expect("decodes");
    assert_eq!(decoded.last_fetch_time, snapshot.last_fetch_time);
    assert_eq!(decoded.releases.len(), snapshot.releases.len());
    for (a, b) in decoded.releases.iter().zip(snapshot.releases.iter()) {
        assert_release_eq(a, b);
    }
}

#[test]
fn test_snapshot_round_trip_empty() {
    let snapshot = CacheSnapshot {
        releases: Vec::new(),
        last_fetch_time: 0,
    };
    let bytes = encode_snapshot(&snapshot);
    let decoded = decode_snapshot(&bytes).expect("decodes");
    assert_eq!(decoded.last_fetch_time, 0);
    assert!(decoded.releases.is_empty());
}

#[test]
fn test_snapshot_round_trip_edge_values() {
    let awkward = Release {
        tag_name: "".to_string(),
        name: None,
        body: Some("r\u{e9}sum\u{e9} \u{2014} notes \u{1f680}".to_string()),
        prerelease: true,
        draft: true,
        html_url: "https://example.com/".to_string(),
        published_at: Some(i64::MIN),
    };
    let snapshot = CacheSnapshot {
        releases: vec![awkward.clone()],
        last_fetch_time: -1,
    };
    let bytes = encode_snapshot(&snapshot);
    let decoded = decode_snapshot(&bytes).expect("decodes");
    assert_eq!(decoded.last_fetch_time, -1);
    assert_release_eq(&decoded.releases[0], &awkward);
}

#[test]
fn test_decode_rejects_corrupt_input() {
    assert!(decode_snapshot(&Vec::new()).is_none());
    assert!(decode_snapshot(&vec![0u8; 3]).is_none());
    // a count of one release but no release bytes
    let mut bytes = vec![0u8; 8];
    bytes[0] = 1;
    assert!(decode_snapshot(&bytes).is_none());
    // trailing garbage after a valid snapshot
    let snapshot = CacheSnapshot {
        releases: Vec::new(),
        last_fetch_time: 7,
    };
    let mut bytes = encode_snapshot(&snapshot);
    bytes.push(0);
    assert!(decode_snapshot(&bytes).is_none());
}

#[test]
fn test_caching_single_fetch_within_ttl() {
    let ttl: u64 = 3600000;
    let t0: i64 = 1710000000000;
    let mut cache = ReleaseCache::new();
    let mut fetches = 0;

    // first call: cold cache, the fetch collaborator is consulted
    match cache.decide(ttl, t0) {
        FetchDecision::NeedFetch => {
            fetches += 1;
            cache.commit(sample_releases(), t0);
        }
        FetchDecision::UseCache(_) => panic!("cold cache cannot be fresh"),
    }
    // second call within the TTL window: served from the cache
    match cache.decide(ttl, t0 + 1000) {
        FetchDecision::UseCache(rs) => {
            assert_eq!(rs.len(), 2);
            assert_eq!(rs[0].tag_name, "v2.0.0");
        }
        FetchDecision::NeedFetch => panic!("cache should be fresh"),
    }
    assert_eq!(fetches, 1);
}

#[test]
fn test_cache_disabled_when_ttl_zero() {
    let t0: i64 = 1710000000000;
    let mut cache = ReleaseCache::new();
    cache.commit(sample_releases(), t0);
    // even right after a commit, a zero TTL forces a fetch
    assert!(matches!(cache.decide(0, t0), FetchDecision::NeedFetch));
    assert!(matches!(cache.decide(0, t0 + 1), FetchDecision::NeedFetch));
}

#[test]
fn test_cache_stale_after_ttl() {
    let ttl: u64 = 1000;
    let t0: i64 = 1710000000000;
    let mut cache = ReleaseCache::new();
    cache.commit(sample_releases(), t0);
    assert!(matches!(
        cache.decide(ttl, t0 + 999),
        FetchDecision::UseCache(_)
    ));
    assert!(matches!(
        cache.decide(ttl, t0 + 1000),
        FetchDecision::NeedFetch
    ));
}

#[test]
fn test_cache_empty_list_is_not_fresh() {
    let t0: i64 = 1710000000000;
    let mut cache = ReleaseCache::new();
    cache.commit(Vec::new(), t0);
    assert!(matches!(
        cache.decide(3600000, t0 + 1),
        FetchDecision::NeedFetch
    ));
}

#[test]
fn test_clear_cache() {
    let ttl: u64 = 3600000;
    let t0: i64 = 1710000000000;
    let mut cache = ReleaseCache::new();
    cache.commit(sample_releases(), t0);
    assert!(matches!(
        cache.decide(ttl, t0 + 1),
        FetchDecision::UseCache(_)
    ));
    cache.clear();
    // after a clear the same moment behaves as a cold start
    assert!(matches!(cache.decide(ttl, t0 + 1), FetchDecision::NeedFetch));
    // clearing again is a no-op, not an error
    cache.clear();
    assert!(matches!(cache.decide(ttl, t0 + 1), FetchDecision::NeedFetch));
}

#[test]
fn test_warm_start_from_snapshot() {
    let ttl: u64 = 3600000;
    let t0: i64 = 1710000000000;
    let mut first = ReleaseCache::new();
    first.commit(sample_releases(), t0);
    let bytes = encode_snapshot(&first.snapshot_with_fallback(t0));

    // a second process loads the snapshot and is fresh without fetching
    let snapshot = decode_snapshot(&bytes).expect("decodes");
    let second = ReleaseCache::from_snapshot(snapshot);
    match second.decide(ttl, t0 + 1000) {
        FetchDecision::UseCache(rs) => assert_eq!(rs[0].tag_name, "v2.0.0"),
        FetchDecision::NeedFetch => panic!("warm start should be fresh"),
    }
}

#[test]
fn test_snapshot_fallback_time() {
    let cache = ReleaseCache::new();
    // no fetch recorded: the caller's clock value stands in
    let snapshot = cache.snapshot_with_fallback(42);
    assert_eq!(snapshot.last_fetch_time, 42);

    let mut cache = ReleaseCache::new();
    cache.commit(sample_releases(), 7);
    let snapshot = cache.snapshot_with_fallback(42);
    assert_eq!(snapshot.last_fetch_time, 7);
}

#[test]
fn test_decide_now_and_commit_now() {
    let mut cache = ReleaseCache::new();
    // an empty cache is never fresh, whatever the clock says
    let (decision, _now) = cache.decide_now(3600000);
    assert!(matches!(decision, FetchDecision::NeedFetch));

    let t = cache.commit_now(sample_releases());
    // immediately after the commit, the cache is fresh at the recorded time
    assert!(matches!(
        cache.decide(3600000, t),
        FetchDecision::UseCache(_)
    ));
}
