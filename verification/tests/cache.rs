use hachha_dev::cache::{Cache, CachedItemState, Timeout};

#[test]
fn general_cacheing() {
    let mut cache: Cache<i8> = Cache::new(Timeout::Never);
    cache.update("foo", 8);
    cache.update("bar", -16);

    let foo_result = cache.retrieve("foo");
    assert!(foo_result.is_ok());
    assert_eq!(cache.get_state("foo"), CachedItemState::Active);

    assert!(cache.in_cache("bar"));
    assert_eq!(cache.retrieve_force("bar"), Some(-16));

    let baz_result = cache.retrieve("baz");
    assert_eq!(baz_result, Err(CachedItemState::Missing));
    assert_eq!(cache.retrieve_force("baz"), None);
}

#[test]
fn fresh_cache_misses() {
    let cache: Cache<u32> = Cache::new(Timeout::Nanos(1_000));
    assert_eq!(cache.get_state("anything"), CachedItemState::Missing);
    assert_eq!(cache.get_state_at("anything", 0), CachedItemState::Missing);
    assert_eq!(cache.retrieve_at("anything", 0), Err(CachedItemState::Missing));
    assert_eq!(cache.retrieve_force("anything"), None);
    assert!(!cache.in_cache_at("anything", 0));
}

#[test]
fn store_then_active() {
    let mut cache: Cache<String> = Cache::new(Timeout::Never);
    let stored = cache.update("greeting", String::from("hello"));
    assert_eq!(stored, "hello");
    assert_eq!(cache.get_state("greeting"), CachedItemState::Active);
    assert_eq!(cache.retrieve("greeting"), Ok(String::from("hello")));
    assert!(cache.in_cache("greeting"));
}

#[test]
fn expiry_after_timeout() {
    // 0.01 s timeout; the check comes 50 ms after the store.
    let mut cache: Cache<i8> = Cache::new(Timeout::Nanos(10_000_000));
    cache.update_at("x", 1, 0);
    assert_eq!(cache.get_state_at("x", 50_000_000), CachedItemState::Expired);
    assert_eq!(
        cache.retrieve_at("x", 50_000_000),
        Err(CachedItemState::Expired)
    );
    assert_eq!(cache.retrieve_force("x"), Some(1));
    // On the boundary the entry is still active: expiry needs age
    // strictly greater than the timeout.
    assert_eq!(cache.get_state_at("x", 10_000_000), CachedItemState::Active);
    assert_eq!(cache.get_state_at("x", 10_000_001), CachedItemState::Expired);
}

#[test]
fn override_takes_precedence() {
    // Cache-wide default of 10 ns, overridden per entry to 1000 ns.
    let mut cache: Cache<u32> = Cache::new(Timeout::Nanos(10));
    cache.update_override_at("k", 7, Some(Timeout::Nanos(1_000)), 0);
    assert_eq!(cache.get_state_at("k", 500), CachedItemState::Active);
    assert_eq!(cache.get_state_at("k", 1_001), CachedItemState::Expired);
    // A plain update clears the override: the default rules again.
    cache.update_at("k", 8, 0);
    assert_eq!(cache.get_state_at("k", 500), CachedItemState::Expired);
}

#[test]
fn override_never_expires() {
    let mut cache: Cache<u32> = Cache::new(Timeout::Nanos(10));
    cache.update_override_at("k", 7, Some(Timeout::Never), 0);
    assert_eq!(cache.get_state_at("k", u128::MAX), CachedItemState::Active);
}

#[test]
fn overwrite_replaces_and_resets_clock() {
    let mut cache: Cache<i8> = Cache::new(Timeout::Nanos(100));
    cache.update_at("k", 1, 0);
    cache.update_at("k", 2, 90);
    // The later value wins...
    assert_eq!(cache.retrieve_at("k", 95), Ok(2));
    // ...and the staleness clock restarted at the second store: at
    // 150 the age is 60, within the timeout.
    assert_eq!(cache.get_state_at("k", 150), CachedItemState::Active);
    assert_eq!(cache.get_state_at("k", 191), CachedItemState::Expired);
}

#[test]
fn retrieve_or_update_short_circuits_on_hit() {
    let mut cache: Cache<u32> = Cache::new(Timeout::Never);
    cache.update_at("page", 111, 0);
    let mut computed = false;
    let value = cache.retrieve_or_update_at(
        "page",
        || {
            computed = true;
            222
        },
        5,
    );
    assert_eq!(value, 111);
    assert!(!computed);
    assert_eq!(cache.retrieve_at("page", 5), Ok(111));
}

#[test]
fn retrieve_or_update_computes_and_stores_on_miss() {
    let mut cache: Cache<u32> = Cache::new(Timeout::Nanos(100));
    let mut calls: u32 = 0;
    let value = cache.retrieve_or_update_at(
        "page",
        || {
            calls += 1;
            222
        },
        0,
    );
    assert_eq!(value, 222);
    assert_eq!(calls, 1);
    assert_eq!(cache.retrieve_at("page", 50), Ok(222));

    // Expired entries are recomputed too.
    let value = cache.retrieve_or_update_at(
        "page",
        || {
            calls += 1;
            333
        },
        500,
    );
    assert_eq!(value, 333);
    assert_eq!(calls, 2);
    assert_eq!(cache.retrieve_at("page", 550), Ok(333));
}

#[test]
fn override_with_wall_clock() {
    // A zero default timeout, overridden per entry to never expire:
    // the entry stays active no matter when the clock is read.
    let mut cache: Cache<u8> = Cache::new(Timeout::Nanos(0));
    cache.update_override("k", 9, Some(Timeout::Never));
    assert_eq!(cache.retrieve("k"), Ok(9));
    assert_eq!(cache.get_state("k"), CachedItemState::Active);
}

#[test]
fn forced_expiry_mode_recomputes_every_time() {
    let mut cache: Cache<u32> = Cache::new_with_policy(Timeout::Never, true);
    cache.update_at("k", 1, 0);
    // Present but always reported expired...
    assert_eq!(cache.get_state_at("k", 0), CachedItemState::Expired);
    assert_eq!(cache.retrieve_at("k", 0), Err(CachedItemState::Expired));
    // ...while a forced retrieval still sees the stored value, and a
    // missing key still reports missing.
    assert_eq!(cache.retrieve_force("k"), Some(1));
    assert_eq!(cache.get_state_at("other", 0), CachedItemState::Missing);
}
