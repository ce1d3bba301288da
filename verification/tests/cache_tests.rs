use homeserver_sync::cache::{Completion, DeviceKey, SyncCache};

fn device(user: &str, device: &str) -> DeviceKey {
    DeviceKey { user: user.to_owned(), device: device.to_owned() }
}

fn token(t: &str) -> Option<String> {
    Some(t.to_owned())
}

#[test]
fn first_request_starts_a_sync() {
    let mut cache: SyncCache<u32> = SyncCache::new();
    assert!(cache.get(&device("@a:x.org", "PHONE")).is_none());
    assert!(cache.get_or_start(device("@a:x.org", "PHONE"), token("5"), 1));
    let held = cache.get(&device("@a:x.org", "PHONE")).unwrap();
    assert_eq!(held.since, token("5"));
    assert_eq!(held.handle, 1);
}

#[test]
fn identical_requests_share_one_sync() {
    let mut cache: SyncCache<u32> = SyncCache::new();
    let mut started = 0;
    for handle in 1..=5 {
        if cache.get_or_start(device("@a:x.org", "PHONE"), token("5"), handle) {
            started += 1;
        }
    }
    assert_eq!(started, 1);
    assert_eq!(cache.get(&device("@a:x.org", "PHONE")).unwrap().handle, 1);
}

#[test]
fn requests_without_token_share_one_sync_too() {
    let mut cache: SyncCache<u32> = SyncCache::new();
    assert!(cache.get_or_start(device("@a:x.org", "PHONE"), None, 1));
    assert!(!cache.get_or_start(device("@a:x.org", "PHONE"), None, 2));
    assert!(cache.get_or_start(device("@a:x.org", "PHONE"), token(""), 3));
}

#[test]
fn another_token_preempts_the_cached_sync() {
    let mut cache: SyncCache<u32> = SyncCache::new();
    assert!(cache.get_or_start(device("@a:x.org", "PHONE"), token("5"), 1));
    assert!(cache.get_or_start(device("@a:x.org", "PHONE"), token("6"), 2));
    let held = cache.get(&device("@a:x.org", "PHONE")).unwrap();
    assert_eq!(held.since, token("6"));
    assert_eq!(held.handle, 2);
    assert!(cache.get_or_start(device("@a:x.org", "PHONE"), token("5"), 3));
}

#[test]
fn tokens_are_compared_as_they_came() {
    let mut cache: SyncCache<u32> = SyncCache::new();
    assert!(cache.get_or_start(device("@a:x.org", "PHONE"), token("5"), 1));
    assert!(cache.get_or_start(device("@a:x.org", "PHONE"), token("05"), 2));
}

#[test]
fn devices_and_users_do_not_share_syncs() {
    let mut cache: SyncCache<u32> = SyncCache::new();
    assert!(cache.get_or_start(device("@a:x.org", "PHONE"), token("5"), 1));
    assert!(cache.get_or_start(device("@a:x.org", "LAPTOP"), token("5"), 2));
    assert!(cache.get_or_start(device("@b:x.org", "PHONE"), token("5"), 3));
    assert!(!cache.get_or_start(device("@a:x.org", "PHONE"), token("5"), 4));
    assert_eq!(cache.get(&device("@a:x.org", "PHONE")).unwrap().handle, 1);
    assert_eq!(cache.get(&device("@a:x.org", "LAPTOP")).unwrap().handle, 2);
    assert_eq!(cache.get(&device("@b:x.org", "PHONE")).unwrap().handle, 3);
}

#[test]
fn joins_asks_without_changing_anything() {
    let mut cache: SyncCache<u32> = SyncCache::new();
    assert!(!cache.joins(&device("@a:x.org", "PHONE"), &token("5")));
    cache.get_or_start(device("@a:x.org", "PHONE"), token("5"), 1);
    assert!(cache.joins(&device("@a:x.org", "PHONE"), &token("5")));
    assert!(!cache.joins(&device("@a:x.org", "PHONE"), &token("6")));
    assert!(!cache.joins(&device("@a:x.org", "PHONE"), &None));
}

#[test]
fn response_that_may_not_be_cached_is_dropped() {
    let mut cache: SyncCache<u32> = SyncCache::new();
    let key = device("@a:x.org", "PHONE");
    cache.get_or_start(device("@a:x.org", "PHONE"), token("5"), 1);
    assert!(cache.finish(&key, &token("5"), Completion::Succeeded { caching_allowed: false }));
    assert!(cache.get(&key).is_none());
    assert!(cache.get_or_start(device("@a:x.org", "PHONE"), token("5"), 2));
}

#[test]
fn response_that_made_progress_stays_cached() {
    let mut cache: SyncCache<u32> = SyncCache::new();
    let key = device("@a:x.org", "PHONE");
    cache.get_or_start(device("@a:x.org", "PHONE"), token("5"), 1);
    assert!(!cache.finish(&key, &token("5"), Completion::Succeeded { caching_allowed: true }));
    assert_eq!(cache.get(&key).unwrap().handle, 1);
    assert!(!cache.get_or_start(device("@a:x.org", "PHONE"), token("5"), 2));
}

#[test]
fn failure_stays_cached() {
    let mut cache: SyncCache<u32> = SyncCache::new();
    let key = device("@a:x.org", "PHONE");
    cache.get_or_start(device("@a:x.org", "PHONE"), token("5"), 1);
    assert!(!cache.finish(&key, &token("5"), Completion::Failed));
    assert_eq!(cache.get(&key).unwrap().handle, 1);
}

#[test]
fn superseded_sync_does_not_drop_its_successor() {
    let mut cache: SyncCache<u32> = SyncCache::new();
    let key = device("@a:x.org", "PHONE");
    cache.get_or_start(device("@a:x.org", "PHONE"), token("5"), 1);
    cache.get_or_start(device("@a:x.org", "PHONE"), token("6"), 2);
    assert!(!cache.finish(&key, &token("5"), Completion::Succeeded { caching_allowed: false }));
    assert_eq!(cache.get(&key).unwrap().handle, 2);
    assert!(!cache.finish(&device("@z:x.org", "PHONE"), &token("5"), Completion::Succeeded { caching_allowed: false }));
}
