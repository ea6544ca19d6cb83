use coral::name_cache::UsernameCache;

#[test]
fn cached_name_is_served_for_fifteen_minutes() {
    let mut c = UsernameCache::new();
    assert_eq!(c.get_cached(1, 0), None);
    c.store(1, "alice".to_string(), 100);
    assert_eq!(c.get_cached(1, 100).as_deref(), Some("alice"));
    assert_eq!(c.get_cached(1, 999).as_deref(), Some("alice"));
    assert_eq!(c.get_cached(1, 1000), None);
    assert_eq!(c.get_cached(1, 50).as_deref(), Some("alice"));
    assert_eq!(c.get_cached(2, 100), None);
}

#[test]
fn storing_again_replaces_the_name() {
    let mut c = UsernameCache::new();
    c.store(1, "alice".to_string(), 0);
    c.store(1, "alicia".to_string(), 10);
    assert_eq!(c.len(), 1);
    assert_eq!(c.get_cached(1, 905).as_deref(), Some("alicia"));
}

#[test]
fn stale_names_are_dropped_past_five_hundred() {
    let mut c = UsernameCache::new();
    for id in 0..501u64 {
        c.store(id, format!("user{id}"), 0);
    }
    assert_eq!(c.len(), 501);
    c.store(9999, "late".to_string(), 1000);
    assert_eq!(c.len(), 1);
    assert_eq!(c.get_cached(9999, 1000).as_deref(), Some("late"));
    let mut d = UsernameCache::new();
    for id in 0..500u64 {
        d.store(id, format!("user{id}"), 0);
    }
    d.store(9999, "late".to_string(), 1000);
    assert_eq!(d.len(), 501);
}
