use wandering_inn_scraper::web::auth::{hash_password, stored_hash, verify_password, RateLimiter, SessionStore};

#[test]
fn hashes_are_salted_and_verify() {
    let a = hash_password("correct horse battery staple").unwrap();
    let b = hash_password("correct horse battery staple").unwrap();

    assert_ne!(a, b, "each hash must use a fresh salt");
    assert!(a.starts_with("$argon2id$"), "must be argon2id PHC, got {}", a);
    assert!(verify_password("correct horse battery staple", &a));
    assert!(verify_password("correct horse battery staple", &b));
    assert!(!verify_password("wrong password", &a));
}

#[test]
fn verify_rejects_a_malformed_hash_without_panicking() {
    assert!(!verify_password("anything", "not-a-phc-string"));
    assert!(!verify_password("anything", ""));
}

#[test]
fn sessions_are_unguessable_and_revocable() {
    let mut store = SessionStore::new(3_600_000);

    let token = store.create();
    assert_eq!(token.len(), 64, "32 random bytes hex-encoded is 64 chars");
    assert!(store.validate(&token));

    let other = store.create();
    assert_ne!(token, other);

    store.revoke(&token);
    assert!(!store.validate(&token));
    assert!(store.validate(&other), "revoking one session must not affect another");
}

#[test]
fn unknown_token_is_rejected() {
    let mut store = SessionStore::new(3_600_000);
    assert!(!store.validate("not-a-real-token"));
    assert!(!store.validate(""));
}

#[test]
fn csrf_token_is_stable_per_session_and_differs_across_sessions() {
    let mut store = SessionStore::new(3_600_000);
    let a = store.create();
    let b = store.create();

    let csrf_a = store.csrf_for(&a).unwrap();
    assert_eq!(store.csrf_for(&a).unwrap(), csrf_a);
    assert_ne!(store.csrf_for(&b).unwrap(), csrf_a);
    assert_ne!(csrf_a, a, "csrf token must not be the session token");
}

#[test]
fn csrf_is_absent_for_an_unknown_session() {
    let store = SessionStore::new(3_600_000);
    assert!(store.csrf_for("nobody").is_none());
}

#[test]
fn validation_at_a_given_time_honours_the_ttl() {
    let mut store = SessionStore::new(100);
    store.create_at("tok".to_string(), "csrf".to_string(), 1000);
    assert!(store.validate_at("tok", 1050));
    assert!(!store.validate_at("tok", 1200), "an expired session is refused");
    assert!(!store.validate_at("tok", 1050), "and forgotten once refused");
}

#[test]
fn rate_limiter_blocks_after_the_configured_attempts() {
    let mut limiter = RateLimiter::new(3, 60_000);

    assert!(limiter.check("192.0.2.1"));
    assert!(limiter.check("192.0.2.1"));
    assert!(limiter.check("192.0.2.1"));
    assert!(!limiter.check("192.0.2.1"), "fourth attempt must be refused");

    assert!(limiter.check("192.0.2.2"), "other clients are unaffected");
}

#[test]
fn rate_limiter_window_at_given_times() {
    let mut limiter = RateLimiter::new(2, 100);
    assert!(limiter.check_at("k", 0));
    assert!(limiter.check_at("k", 10));
    assert!(!limiter.check_at("k", 50));
    assert!(!limiter.check_at("k", 100), "the window still holds at its last instant");
    assert!(limiter.check_at("k", 101), "a new window opens once the old one has passed");
}

#[test]
fn an_empty_stored_hash_is_refused() {
    assert_eq!(stored_hash(String::new()), Err("credential file contains an empty hash".to_string()));
    assert_eq!(stored_hash("$argon2id$x".to_string()), Ok("$argon2id$x".to_string()));
}
