//! The read-through protocol end to end, against the in-memory backend,
//! with scripted origin fetches standing in for the network.

use study_tracker::cacheable::{
    expiry_from_ttl, get, resolve_read, CacheHandle, CacheKey, CacheCodec, CachePolicy,
    FetchError, ReadOutcome,
};
use study_tracker::wanikani::WanikaniReviewStats;

const NOW: u64 = 1700000000;

fn stats(total_count: u32) -> WanikaniReviewStats {
    WanikaniReviewStats { total_count }
}

fn origin_down() -> Result<WanikaniReviewStats, FetchError> {
    panic!("the origin must not be consulted on a cache hit");
}

#[test]
fn cache_hit_returns_without_calling_origin() {
    let mut backend = Some(CacheHandle::empty());
    backend
        .as_mut()
        .unwrap()
        .write(WanikaniReviewStats::cache_key(), stats(42).encode(), Some(NOW + 600));

    let result = get(&mut backend, NOW, origin_down);

    let (value, expiry) = result.expect("a pre-populated backend must hit");
    assert_eq!(value, stats(42));
    assert_eq!(expiry, Some(NOW + 600));
}

#[test]
fn cache_miss_falls_through_and_writes_back() {
    let mut backend = Some(CacheHandle::empty());

    let (value, expiry) = get(&mut backend, NOW, || Ok(stats(41)))
        .expect("a fetch that succeeds must be returned");
    assert_eq!(value, stats(41));
    assert_eq!(expiry, Some(NOW + 3600));

    let stored = backend
        .as_ref()
        .unwrap()
        .read(WanikaniReviewStats::cache_key(), NOW);
    assert_eq!(stored, Some(stats(41).encode()));

    // A later retrieval must be served from the write-back: its origin is
    // scripted to abort the test if consulted.
    let (again, _) =
        get(&mut backend, NOW + 10, origin_down).expect("the written-back value must hit");
    assert_eq!(again, stats(41));
}

#[test]
fn malformed_cached_payload_is_treated_as_miss() {
    let mut backend = Some(CacheHandle::empty());
    backend.as_mut().unwrap().write(
        WanikaniReviewStats::cache_key(),
        "{not the canonical encoding}".to_owned(),
        Some(NOW + 600),
    );

    let (value, expiry) = get(&mut backend, NOW, || Ok(stats(41)))
        .expect("a malformed entry must not fail the call");
    assert_eq!(value, stats(41));
    assert_eq!(expiry, Some(NOW + 3600));
}

#[test]
fn no_backend_behaves_like_unconditional_miss() {
    let mut backend: Option<CacheHandle> = None;

    let (value, expiry) = get(&mut backend, NOW, || Ok(stats(41)))
        .expect("a missing backend must never fail the call");
    assert_eq!(value, stats(41));
    assert_eq!(expiry, Some(NOW + 3600));
    assert!(backend.is_none());
}

#[test]
fn origin_failure_propagates_and_writes_nothing() {
    let mut backend = Some(CacheHandle::empty());

    let result = get::<WanikaniReviewStats, _>(&mut backend, NOW, || {
        Err(FetchError::Network("simulated network failure".to_owned()))
    });
    assert_eq!(
        result,
        Err(FetchError::Network("simulated network failure".to_owned()))
    );

    assert_eq!(
        backend
            .as_ref()
            .unwrap()
            .read(WanikaniReviewStats::cache_key(), NOW),
        None
    );
}

#[test]
fn sentinel_ttl_reports_yield_unknown_expiry() {
    assert_eq!(expiry_from_ttl(NOW, -1), None);
    assert_eq!(expiry_from_ttl(NOW, -2), None);
    assert_eq!(expiry_from_ttl(NOW, 0), None);
    assert_eq!(expiry_from_ttl(NOW, 600), Some(NOW + 600));

    // An entry stored without expiration reports the "no expiry" sentinel
    // and hits with an unknown expiry, not an error.
    let mut backend = Some(CacheHandle::empty());
    backend
        .as_mut()
        .unwrap()
        .write(WanikaniReviewStats::cache_key(), stats(7).encode(), None);
    assert_eq!(
        backend
            .as_ref()
            .unwrap()
            .remaining_ttl(WanikaniReviewStats::cache_key(), NOW),
        -1
    );

    let (value, expiry) = get(&mut backend, NOW, origin_down).expect("must hit");
    assert_eq!(value, stats(7));
    assert_eq!(expiry, None);
}

#[test]
fn expired_entries_are_invisible() {
    let mut backend = Some(CacheHandle::empty());
    let handle = backend.as_mut().unwrap();
    handle.write(WanikaniReviewStats::cache_key(), stats(5).encode(), Some(NOW));
    assert_eq!(handle.read(WanikaniReviewStats::cache_key(), NOW), None);
    assert_eq!(handle.remaining_ttl(WanikaniReviewStats::cache_key(), NOW), -2);

    let (value, _) =
        get(&mut backend, NOW, || Ok(stats(41))).expect("an expired entry is a miss");
    assert_eq!(value, stats(41));
}

#[test]
fn resolve_read_decodes_stored_text() {
    let stored = stats(9).encode();
    match resolve_read::<WanikaniReviewStats>(Some(&stored), Some(120), NOW) {
        ReadOutcome::Hit(v, expiry) => {
            assert_eq!(v, stats(9));
            assert_eq!(expiry, Some(NOW + 120));
        }
        ReadOutcome::Miss => panic!("stored canonical text must hit"),
    }

    match resolve_read::<WanikaniReviewStats>(None, None, NOW) {
        ReadOutcome::Hit(_, _) => panic!("an absent read must miss"),
        ReadOutcome::Miss => {}
    }
}

#[test]
fn distinct_keys_do_not_collide() {
    let mut backend = Some(CacheHandle::empty());
    let handle = backend.as_mut().unwrap();
    handle.write(CacheKey::Bunpro, "unrelated".to_owned(), Some(NOW + 600));
    assert_eq!(handle.read(WanikaniReviewStats::cache_key(), NOW), None);
    assert_eq!(
        handle.read(CacheKey::Bunpro, NOW),
        Some("unrelated".to_owned())
    );
}

#[test]
fn cache_keys_are_distinct_strings() {
    let keys = [
        CacheKey::WanikaniSummary,
        CacheKey::WanikaniStats,
        CacheKey::Bunpro,
        CacheKey::BunproStats,
        CacheKey::SatoriReviewCards,
        CacheKey::SatoriNewCards,
        CacheKey::SatoriStats,
        CacheKey::Anki,
    ];
    for (i, a) in keys.iter().enumerate() {
        for (j, b) in keys.iter().enumerate() {
            if i != j {
                assert_ne!(a.key_str(), b.key_str());
            }
        }
    }
    assert_eq!(CacheKey::Anki.key_str(), "anki_data");
    assert_eq!(CacheKey::WanikaniSummary.key_str(), "wanikani_summary_data");
}
