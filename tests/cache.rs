use bin_collection::bin_calendar::BinColor;
use bin_collection::schedule_cache::{CacheLookup, ScheduleCache, STALE_AFTER_SECS};

fn result(colour: &str, at: i64) -> BinColor {
    BinColor {
        colors: vec![colour.to_string()],
        update_date: Some(at),
        collect_date: "3 June 2024".to_string(),
    }
}

const T0: i64 = 1_717_400_000;

#[test]
fn empty_cache_asks_for_a_refresh() {
    let cache = ScheduleCache::new();
    assert!(cache.is_stale(T0));
    assert!(matches!(cache.lookup(T0), CacheLookup::Refresh));
}

#[test]
fn fresh_result_is_served_for_twelve_hours() {
    let mut cache = ScheduleCache::new();
    let stored = cache.refresh(Some(result("Blue", T0)), T0);
    assert_eq!(stored, Some(result("Blue", T0)));
    assert_eq!(cache.last_computed_at, Some(T0));
    match cache.lookup(T0 + STALE_AFTER_SECS - 1) {
        CacheLookup::Fresh(b) => assert_eq!(b, result("Blue", T0)),
        CacheLookup::Refresh => panic!("served from cache expected"),
    }
    assert!(matches!(cache.lookup(T0 + 3600), CacheLookup::Fresh(_)));
}

#[test]
fn twelve_hours_later_the_cache_refreshes() {
    let mut cache = ScheduleCache::new();
    cache.refresh(Some(result("Blue", T0)), T0);
    assert_eq!(STALE_AFTER_SECS, 12 * 3600);
    assert!(matches!(cache.lookup(T0 + STALE_AFTER_SECS), CacheLookup::Refresh));
    assert!(matches!(cache.lookup(T0 + 2 * STALE_AFTER_SECS), CacheLookup::Refresh));
    let stored = cache.refresh(Some(result("Green", T0 + STALE_AFTER_SECS)), T0 + STALE_AFTER_SECS);
    assert_eq!(stored, Some(result("Green", T0 + STALE_AFTER_SECS)));
    assert_eq!(cache.last_computed_at, Some(T0 + STALE_AFTER_SECS));
    assert!(matches!(cache.lookup(T0 + STALE_AFTER_SECS + 1), CacheLookup::Fresh(_)));
}

#[test]
fn failed_refresh_keeps_the_previous_result() {
    let mut cache = ScheduleCache::new();
    cache.refresh(Some(result("Blue", T0)), T0);
    let later = T0 + STALE_AFTER_SECS + 10;
    assert!(cache.is_stale(later));
    assert_eq!(cache.refresh(None, later), None);
    assert_eq!(cache.last_computed_at, Some(T0));
    assert_eq!(cache.last_result, Some(result("Blue", T0)));
    assert!(matches!(cache.lookup(T0 + 60), CacheLookup::Fresh(_)));
}

#[test]
fn empty_result_is_never_cached() {
    let mut cache = ScheduleCache::new();
    assert_eq!(cache.refresh(Some(BinColor::new()), T0), None);
    assert_eq!(cache.last_result, None);
    assert_eq!(cache.last_computed_at, None);
    assert!(matches!(cache.lookup(T0), CacheLookup::Refresh));
}

#[test]
fn clock_going_back_serves_the_cache() {
    let mut cache = ScheduleCache::new();
    cache.refresh(Some(result("Blue", T0)), T0);
    assert!(!cache.is_stale(T0 - 100));
    assert!(!cache.is_stale(i64::MIN));
    cache.refresh(Some(result("Blue", i64::MIN)), i64::MIN);
    assert!(cache.is_stale(i64::MAX));
}

/// One request as a server makes it: fetch only when the cache says so.
fn request(cache: &mut ScheduleCache, now: i64, fetch: &mut dyn FnMut() -> Option<BinColor>) -> Option<BinColor> {
    match cache.lookup(now) {
        CacheLookup::Fresh(b) => Some(b),
        CacheLookup::Refresh => {
            let fetched = fetch();
            cache.refresh(fetched, now)
        }
    }
}

#[test]
fn succeeding_fetch_runs_once_per_twelve_hours() {
    let mut cache = ScheduleCache::new();
    let mut calls = 0;
    let mut fetch = || {
        calls += 1;
        Some(result("Blue", T0))
    };
    assert!(request(&mut cache, T0, &mut fetch).is_some());
    assert!(request(&mut cache, T0 + 11 * 3600, &mut fetch).is_some());
    assert!(request(&mut cache, T0 + 12 * 3600 - 1, &mut fetch).is_some());
    assert!(request(&mut cache, T0 + 12 * 3600, &mut fetch).is_some());
    assert!(request(&mut cache, T0 + 13 * 3600, &mut fetch).is_some());
    drop(fetch);
    assert_eq!(calls, 2);
}

#[test]
fn failing_fetch_keeps_result_and_time() {
    let mut cache = ScheduleCache::new();
    let mut ok = || Some(result("Blue", T0));
    request(&mut cache, T0, &mut ok);
    let mut failing = || None;
    let stale = T0 + STALE_AFTER_SECS;
    assert_eq!(request(&mut cache, stale, &mut failing), None);
    assert_eq!(cache.last_computed_at, Some(T0));
    assert_eq!(cache.last_result, Some(result("Blue", T0)));
    let mut again = || Some(result("Green", stale + 5));
    assert_eq!(request(&mut cache, stale + 5, &mut again), Some(result("Green", stale + 5)));
}
