use query_layer::cache::{hash_query_to_unique_id, sanitize_query, CacheAction, CacheEvent, CacheSession, Phase};
use query_layer::config::CachingConfig;
use query_layer::error::PersistenceError;

fn caching(enabled: bool) -> CachingConfig {
    CachingConfig {
        cache_enabled: enabled,
        cache_expiry: 300,
        cache_type: "memcache".to_string(),
        cache_host: "localhost".to_string(),
        cache_port: 11211,
    }
}

#[test]
fn sanitize_keeps_alphanumerics_only() {
    assert_eq!(sanitize_query("SELECT (orders.status) FROM orders ;"), "SELECTordersstatusFROMorders");
    assert_eq!(sanitize_query("a-1 \t\nb_2 ü!"), "a1b2ü");
    assert_eq!(sanitize_query(""), "");
}

#[test]
fn fingerprint_is_hex_sha256_of_sanitized_query() {
    assert_eq!(
        hash_query_to_unique_id("SELECT (orders.status) FROM orders ;"),
        "938ab6d550d259b7b5b601e708d255b68030266bdcf23994939467cd7b0c65cb"
    );
    assert_eq!(hash_query_to_unique_id(" ;"), "e3b0c44298fc1c149afbf4c8996fb92427ae41e4649b934ca495991b7852b855");
}

#[test]
fn fingerprint_ignores_layout() {
    let a = hash_query_to_unique_id("SELECT (orders.status) FROM orders ;");
    let b = hash_query_to_unique_id("SELECT\n  (orders.status)\tFROM   orders;");
    assert_eq!(a, b);
    let c = hash_query_to_unique_id("SELECT (orders.state) FROM orders ;");
    assert_ne!(a, c);
    assert_eq!(a.len(), 64);
}

#[test]
fn session_with_cache_hit_answers_from_cache() {
    let mut s = CacheSession::new(&caching(true), true, "SELECT 1");
    let key = hash_query_to_unique_id("SELECT 1");
    assert!(matches!(s.step(CacheEvent::Start), CacheAction::Lookup(ref k) if *k == key));
    assert!(matches!(s.step(CacheEvent::CacheHit), CacheAction::ReplyCached));
    assert_eq!(s.phase, Phase::Done);
}

#[test]
fn session_miss_executes_then_stores_under_same_key() {
    let mut s = CacheSession::new(&caching(true), true, "SELECT 1");
    let looked_up = match s.step(CacheEvent::Start) {
        CacheAction::Lookup(k) => k,
        other => panic!("unexpected {:?}", other),
    };
    assert!(matches!(s.step(CacheEvent::CacheMiss), CacheAction::Execute));
    match s.step(CacheEvent::QuerySucceeded) {
        CacheAction::Store(k, e) => {
            assert_eq!(k, looked_up);
            assert_eq!(e, 300);
        }
        other => panic!("unexpected {:?}", other),
    }
    assert!(matches!(s.step(CacheEvent::Stored), CacheAction::ReplyFresh));
}

#[test]
fn session_without_cache_never_looks_up_or_stores() {
    for (enabled, client) in [(false, true), (true, false), (false, false)] {
        let mut s = CacheSession::new(&caching(enabled), client, "SELECT 1");
        assert!(matches!(s.step(CacheEvent::Start), CacheAction::Execute));
        assert!(matches!(s.step(CacheEvent::QuerySucceeded), CacheAction::ReplyFresh));
    }
}

#[test]
fn session_backend_failure_fails_request() {
    let mut s = CacheSession::new(&caching(true), true, "SELECT 1");
    s.step(CacheEvent::Start);
    s.step(CacheEvent::CacheMiss);
    let r = s.step(CacheEvent::QueryFailed("timeout".to_string()));
    assert!(matches!(r, CacheAction::Fail(PersistenceError::BackendExecutionError(ref m)) if m == "timeout"));
    assert_eq!(PersistenceError::BackendExecutionError("x".to_string()).status_code(), 500);
}

#[test]
fn session_event_out_of_sequence_fails() {
    let mut s = CacheSession::new(&caching(true), true, "SELECT 1");
    assert!(matches!(s.step(CacheEvent::Stored), CacheAction::Fail(PersistenceError::Unknown)));
}

#[test]
fn status_codes() {
    assert_eq!(PersistenceError::FieldNotFound("a.b".to_string()).status_code(), 400);
    assert_eq!(PersistenceError::JoinPathNotFound("b".to_string()).status_code(), 400);
    assert_eq!(PersistenceError::UnknownAggregate("x".to_string()).status_code(), 400);
    assert_eq!(PersistenceError::SerializationError("x".to_string()).status_code(), 500);
    assert_eq!(PersistenceError::Unknown.status_code(), 500);
}
