use passkey_auth::session::{SessionStore, SessionType};
use passkey_auth::error::AuthError;

#[test]
fn session_kind_names() {
    assert_eq!(SessionType::Registration.as_str(), "registration");
    assert_eq!(SessionType::Authentication.as_str(), "authentication");
}

#[test]
fn take_returns_session_once() {
    let mut store = SessionStore::new();
    let id = store
        .create(SessionType::Registration, Some("alice".to_string()), "ch".to_string(), 1_000, 300_000)
        .unwrap();
    let first = store.take(&id, 2_000).unwrap();
    assert_eq!(first.challenge, "ch");
    assert_eq!(first.expires_at, 301_000);
    assert_eq!(first.kind, SessionType::Registration);
    assert!(store.take(&id, 2_000).is_none());
    assert_eq!(store.len(), 0);
}

#[test]
fn take_at_deadline_yields_nothing_and_deletes() {
    let mut store = SessionStore::new();
    store
        .create_with_id("s1".to_string(), SessionType::Authentication, None, "ch".to_string(), 0, 100)
        .unwrap();
    assert!(store.take(&"s1".to_string(), 100).is_none());
    assert_eq!(store.len(), 0);
}

#[test]
fn take_just_before_deadline_succeeds() {
    let mut store = SessionStore::new();
    store
        .create_with_id("s1".to_string(), SessionType::Authentication, None, "ch".to_string(), 0, 100)
        .unwrap();
    assert!(store.take(&"s1".to_string(), 99).is_some());
}

#[test]
fn create_with_id_refuses_taken_id() {
    let mut store = SessionStore::new();
    store
        .create_with_id("s1".to_string(), SessionType::Registration, None, "a".to_string(), 0, 10)
        .unwrap();
    let err = store
        .create_with_id("s1".to_string(), SessionType::Registration, None, "b".to_string(), 0, 10)
        .unwrap_err();
    assert_eq!(err, AuthError::SessionIdCollision);
    assert_eq!(store.take(&"s1".to_string(), 1).unwrap().challenge, "a");
}

#[test]
fn deadline_saturates_at_largest_instant() {
    let mut store = SessionStore::new();
    store
        .create_with_id("s1".to_string(), SessionType::Registration, None, "a".to_string(), u64::MAX - 5, 10)
        .unwrap();
    assert_eq!(store.take(&"s1".to_string(), 0).unwrap().expires_at, u64::MAX);
}

#[test]
fn created_ids_are_distinct() {
    let mut store = SessionStore::new();
    let a = store.create(SessionType::Registration, None, "a".to_string(), 0, 10).unwrap();
    let b = store.create(SessionType::Registration, None, "b".to_string(), 0, 10).unwrap();
    assert_ne!(a, b);
    assert_eq!(store.len(), 2);
}

#[test]
fn sweep_removes_expired_and_take_then_finds_nothing() {
    let mut store = SessionStore::new();
    store
        .create_with_id("old".to_string(), SessionType::Registration, None, "a".to_string(), 0, 100)
        .unwrap();
    store
        .create_with_id("new".to_string(), SessionType::Registration, None, "b".to_string(), 0, 1_000)
        .unwrap();
    assert_eq!(store.sweep_expired(500), 1);
    assert_eq!(store.len(), 1);
    assert!(store.take(&"old".to_string(), 50).is_none());
    assert!(store.take(&"new".to_string(), 600).is_some());
}

#[test]
fn sweep_tolerates_empty_and_all_expired() {
    let mut store = SessionStore::new();
    assert_eq!(store.sweep_expired(10), 0);
    for i in 0..4u64 {
        store
            .create_with_id(format!("s{}", i), SessionType::Authentication, None, "c".to_string(), i, 1)
            .unwrap();
    }
    assert_eq!(store.sweep_expired(100), 4);
    assert_eq!(store.len(), 0);
}

#[test]
fn delete_for_user_removes_only_their_sessions() {
    let mut store = SessionStore::new();
    let alice = Some("alice".to_string());
    store
        .create_with_id("a1".to_string(), SessionType::Authentication, alice.clone(), "c".to_string(), 0, 10)
        .unwrap();
    store
        .create_with_id("d1".to_string(), SessionType::Authentication, None, "c".to_string(), 0, 10)
        .unwrap();
    store
        .create_with_id("a2".to_string(), SessionType::Registration, alice, "c".to_string(), 0, 10)
        .unwrap();
    assert_eq!(store.delete_for_user(&"alice".to_string()), 2);
    assert_eq!(store.len(), 1);
    assert!(store.take(&"d1".to_string(), 1).is_some());
}
