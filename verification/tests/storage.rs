//! Stores whose entries belong to an owner.

use apcore_a2a::auth::identity::Identity;
use apcore_a2a::json::Json;
use apcore_a2a::storage::{
    CallContext, InMemoryPushConfigStore, InMemoryTaskStore, ListParams, OwnerId, StoreError,
};

fn j(text: &str) -> Json {
    Json::parse(text).expect("valid JSON")
}

fn ctx(owner: &str) -> CallContext {
    CallContext::new(OwnerId::named(owner))
}

fn task(id: &str) -> Json {
    j(&format!(r#"{{"id":"{id}","status":{{"state":"completed"}}}}"#))
}

#[test]
fn two_owners_may_hold_the_same_task_id_without_seeing_each_other() {
    let mut store = InMemoryTaskStore::new();
    store.save("t1", j(r#"{"id":"t1","who":"alice"}"#), &ctx("alice")).unwrap();
    store.save("t1", j(r#"{"id":"t1","who":"bob"}"#), &ctx("bob")).unwrap();
    assert_eq!(store.get("t1", &ctx("alice")).unwrap().unwrap().get_str("who"), Some("alice"));
    assert_eq!(store.get("t1", &ctx("bob")).unwrap().unwrap().get_str("who"), Some("bob"));
}

#[test]
fn a_foreign_owner_cannot_tell_a_stored_task_from_a_missing_one() {
    let mut store = InMemoryTaskStore::new();
    store.save("t1", task("t1"), &ctx("alice")).unwrap();
    assert!(store.get("t1", &ctx("mallory")).unwrap().is_none());
    assert!(store.get("nope", &ctx("mallory")).unwrap().is_none());
}

#[test]
fn list_returns_only_the_callers_bucket() {
    let mut store = InMemoryTaskStore::new();
    store.save("a1", task("a1"), &ctx("alice")).unwrap();
    store.save("a2", task("a2"), &ctx("alice")).unwrap();
    store.save("b1", task("b1"), &ctx("bob")).unwrap();

    let mut alice: Vec<String> = store
        .list(&ListParams::new(), &ctx("alice"))
        .unwrap()
        .iter()
        .map(|t| t.get_str("id").unwrap().to_string())
        .collect();
    alice.sort();
    assert_eq!(alice, vec!["a1", "a2"]);

    let bob = store.list(&ListParams::new(), &ctx("bob")).unwrap();
    assert_eq!(bob.len(), 1);
    assert_eq!(bob[0].get_str("id"), Some("b1"));

    assert!(store.list(&ListParams::new(), &ctx("carol")).unwrap().is_empty());
}

#[test]
fn delete_by_a_foreign_owner_leaves_the_task_intact() {
    let mut store = InMemoryTaskStore::new();
    store.save("t1", task("t1"), &ctx("alice")).unwrap();
    store.delete("t1", &ctx("mallory")).unwrap();
    assert!(store.get("t1", &ctx("alice")).unwrap().is_some());
    store.delete("t1", &ctx("alice")).unwrap();
    assert!(store.get("t1", &ctx("alice")).unwrap().is_none());
}

#[test]
fn every_anonymous_caller_shares_one_bucket() {
    let mut store = InMemoryTaskStore::new();
    store.save("t1", task("t1"), &CallContext::anonymous()).unwrap();
    assert!(store.get("t1", &CallContext::from_identity(None)).unwrap().is_some());
    assert!(OwnerId::anonymous().is_anonymous());
    assert_eq!(OwnerId::from_identity(None), OwnerId::anonymous());
}

#[test]
fn push_configs_are_scoped_to_their_owner_too() {
    let mut store = InMemoryPushConfigStore::new();
    let cfg = j(r#"{"url":"https://alice.example/hook"}"#);
    store.save("t1", cfg.clone(), &ctx("alice")).unwrap();
    assert_eq!(store.get("t1", &ctx("alice")).unwrap().unwrap(), cfg);
    assert!(store.get("t1", &ctx("mallory")).unwrap().is_none());
    store.delete("t1", &ctx("mallory")).unwrap();
    assert!(store.get("t1", &ctx("alice")).unwrap().is_some());
}

#[test]
fn emptying_an_owners_bucket_drops_the_owner_entry() {
    let mut store = InMemoryTaskStore::new();
    store.save("t1", task("t1"), &ctx("alice")).unwrap();
    assert!(!store.is_empty());
    store.delete("t1", &ctx("alice")).unwrap();
    assert!(store.is_empty());
}

#[test]
fn saving_again_replaces() {
    let mut store = InMemoryTaskStore::new();
    store.save("t1", j("1"), &ctx("a")).unwrap();
    store.save("t2", j("2"), &ctx("a")).unwrap();
    store.save("t1", j("3"), &ctx("a")).unwrap();
    assert_eq!(store.get("t1", &ctx("a")).unwrap(), Some(j("3")));
    assert_eq!(store.list(&ListParams::new(), &ctx("a")).unwrap().len(), 2);
}

#[test]
fn the_owner_is_the_principal() {
    let who = Identity::new("u1".into(), "t".into(), vec![], vec![]);
    let c = CallContext::from_identity(Some(&who));
    assert_eq!(c.owner().as_str(), "u1");
    assert!(!c.owner().is_anonymous());
}

#[test]
fn store_errors_say_what_happened() {
    assert_eq!(
        StoreError::backend_msg("database is unreachable").message(),
        "task store backend failure: database is unreachable"
    );
    assert_eq!(StoreError::backend("x").message(), "task store backend failure: x");
    assert_eq!(StoreError::LockPoisoned.message(), "task store lock poisoned");
}
