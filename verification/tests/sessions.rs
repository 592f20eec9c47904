//! The expiring session store.

use mcp_core::session::{SessionItem, SessionStore};

#[test]
fn session_expires_after_its_lifetime() {
    // created at one million with a one-second lifetime: live strictly
    // before the expiry instant, gone at and after it
    let mut store = SessionStore::new();
    store.create_session_at("abc".to_string(), 1, 1_000_000);
    assert!(store.get_session_at("abc", 1_000_999).is_some());
    assert!(store.get_session_at("abc", 1_001_000).is_none());
    // the expired session was removed on access
    assert!(store.get_session_at("abc", 1_000_500).is_none());
}

#[test]
fn live_session_carries_its_items() {
    let mut store = SessionStore::new();
    store.create_session_at("abc".to_string(), 1800, 0);
    store.set_session_value("abc", "debug_level".to_string(), "warning".to_string());
    let session = store.get_session_at("abc", 1000).expect("the session is live");
    assert_eq!(session.get_item("debug_level").as_deref(), Some("warning"));
    assert_eq!(session.get_item("missing"), None);
}

#[test]
fn set_item_replaces_the_value() {
    let mut item = SessionItem::new_at(10);
    item.set_item("k".to_string(), "v1".to_string());
    item.set_item("k".to_string(), "v2".to_string());
    item.set_item("other".to_string(), "x".to_string());
    assert_eq!(item.get_item("k").as_deref(), Some("v2"));
    assert_eq!(item.get_item("other").as_deref(), Some("x"));
    assert_eq!(item.expires_at, 10);
}

#[test]
fn create_replaces_an_existing_session() {
    let mut store = SessionStore::new();
    store.create_session_at("abc".to_string(), 1, 0);
    store.set_session_value("abc", "k".to_string(), "v".to_string());
    store.create_session_at("abc".to_string(), 10, 0);
    let session = store.get_session_at("abc", 500).expect("recreated and live");
    assert_eq!(session.get_item("k"), None, "recreation clears the items");
}

#[test]
fn invalidate_drops_the_session() {
    let mut store = SessionStore::new();
    store.create_session_at("abc".to_string(), 1800, 0);
    store.invalidate_session("abc");
    assert!(store.get_session_at("abc", 1).is_none());
}

#[test]
fn sweep_evicts_only_the_expired() {
    let mut store = SessionStore::new();
    store.create_session_at("old".to_string(), 1, 0);
    store.create_session_at("fresh".to_string(), 1800, 0);
    store.sweep(600_000);
    assert!(store.get_session_at("old", 600_001).is_none());
    assert!(store.get_session_at("fresh", 600_001).is_some());
}

#[test]
fn timed_creation_lives_now() {
    let mut store = SessionStore::new();
    store.create_session("abc".to_string(), 1800);
    assert!(store.get_session(&"abc".to_string()).is_some());
}
