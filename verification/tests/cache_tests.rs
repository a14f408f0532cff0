use hr_service::username_cache::{
    batch_mark, is_taken, mark_taken, marker_or_unknown, TakenCache, MAX_TTL_SECS,
};
use std::time::{Duration, Instant};

fn wait(duration: Duration) {
    let start = Instant::now();
    while start.elapsed() < duration {
        std::hint::spin_loop();
    }
}

#[test]
fn empty_cache_knows_nobody() {
    let cache = TakenCache::new(100, 60);
    assert!(!is_taken(&cache, "alice"));
    assert!(!is_taken(&cache, ""));
}

#[test]
fn marked_username_is_taken() {
    let mut cache = TakenCache::new(100, 60);
    mark_taken(&mut cache, "alice");
    assert!(is_taken(&cache, "alice"));
    assert!(!is_taken(&cache, "bob"));
}

#[test]
fn cache_ignores_case() {
    let mut cache = TakenCache::new(100, 60);
    mark_taken(&mut cache, "Alice");
    assert!(is_taken(&cache, "alice"));
    assert!(is_taken(&cache, "ALICE"));
    assert!(is_taken(&cache, "Alice"));
}

#[test]
fn marking_twice_is_harmless() {
    let mut cache = TakenCache::new(100, 60);
    mark_taken(&mut cache, "carol");
    mark_taken(&mut cache, "carol");
    assert!(is_taken(&cache, "carol"));
}

#[test]
fn entry_expires_after_its_time_to_live() {
    let mut cache = TakenCache::new(100, 1);
    mark_taken(&mut cache, "dave");
    assert!(is_taken(&cache, "dave"));
    wait(Duration::from_millis(1300));
    assert!(!is_taken(&cache, "dave"));
}

#[test]
fn batch_marks_every_member() {
    let mut cache = TakenCache::new(100, 60);
    let batch = vec!["Erin".to_string(), "FRANK".to_string(), "gina".to_string()];
    batch_mark(&mut cache, &batch);
    for name in ["erin", "frank", "gina"] {
        assert!(is_taken(&cache, name));
    }
    assert!(!is_taken(&cache, "hank"));
}

#[test]
fn longest_time_to_live_is_accepted() {
    assert_eq!(MAX_TTL_SECS, 1000 * 365 * 24 * 3600);
    let mut cache = TakenCache::new(10, MAX_TTL_SECS);
    mark_taken(&mut cache, "ivy");
    assert!(is_taken(&cache, "ivy"));
}

#[test]
fn missing_marker_means_unknown() {
    assert!(marker_or_unknown(Some(true)));
    assert!(!marker_or_unknown(Some(false)));
    assert!(!marker_or_unknown(None));
}

#[test]
fn repeated_mark_does_not_prolong_the_entry() {
    let mut cache = TakenCache::new(100, 2);
    mark_taken(&mut cache, "erin");
    wait(Duration::from_millis(1200));
    assert!(is_taken(&cache, "erin"));
    // the entry is alive: this mark leaves it as it is
    mark_taken(&mut cache, "Erin");
    wait(Duration::from_millis(1200));
    assert!(!is_taken(&cache, "erin"));
    // the entry is gone: this mark puts a new one in
    mark_taken(&mut cache, "ERIN");
    assert!(is_taken(&cache, "erin"));
}

#[test]
fn marked_usernames_are_known_in_any_spelling() {
    let mut cache = TakenCache::new(100, 60);
    batch_mark(&mut cache, &["Alice".to_string(), "BOB".to_string()]);
    for name in ["alice", "ALICE", "Alice", "bob", "Bob", "BOB"] {
        assert!(is_taken(&cache, name));
    }
}
