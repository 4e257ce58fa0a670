use regreet::cache::{Cache, CACHE_LIMIT};

#[test]
fn remembers_last_user_and_sessions() {
    let mut cache = Cache::new(None, vec![]);
    assert_eq!(cache.get_last_user(), None);
    cache.set_last_user("alice");
    assert_eq!(cache.get_last_user(), Some("alice"));
    cache.set_last_session("alice", "sway");
    cache.set_last_session("bob", "gnome");
    cache.set_last_session("alice", "plasma");
    assert_eq!(cache.get_last_session("alice"), Some("plasma".to_string()));
    assert_eq!(cache.get_last_session("carol"), None);
    assert_eq!(
        cache.sessions(),
        vec![("alice".to_string(), "plasma".to_string()), ("bob".to_string(), "gnome".to_string())]
    );
    assert_eq!(cache.get_last_session("bob"), Some("gnome".to_string()));
    assert_eq!(cache.sessions()[0].0, "bob");
}

#[test]
fn restores_saved_entries_in_order() {
    let saved = vec![
        ("u1".to_string(), "s1".to_string()),
        ("u2".to_string(), "s2".to_string()),
        ("u1".to_string(), "s3".to_string()),
    ];
    let cache = Cache::new(Some("u2".to_string()), saved);
    assert_eq!(cache.get_last_user(), Some("u2"));
    assert_eq!(
        cache.sessions(),
        vec![("u1".to_string(), "s3".to_string()), ("u2".to_string(), "s2".to_string())]
    );
}

#[test]
fn keeps_at_most_the_limit() {
    let mut cache = Cache::new(None, vec![]);
    for i in 0..(CACHE_LIMIT + 5) {
        cache.set_last_session(&format!("user{i}"), "s");
    }
    let entries = cache.sessions();
    assert_eq!(entries.len(), CACHE_LIMIT);
    assert_eq!(entries[0].0, format!("user{}", CACHE_LIMIT + 4));
    assert_eq!(cache.get_last_session("user4"), None);
    assert_eq!(cache.get_last_session("user5"), Some("s".to_string()));
}
