//! In whose name access rules are asked.

use apcore::acl::{ACLRule, ACL};
use apcore::context::Context;
use apcore_a2a::auth::identity::Identity;
use apcore_a2a::json::Json;
use apcore_a2a::server::cards::{acl_filtered_card, FilteredCard, MAX_CACHED_FILTERED_CARDS};
use apcore_a2a::server::executor::EXTERNAL_CALLER;
use apcore_a2a::{ApCoreAgentExecutor, PartConverter, SchemaConverter};
use std::sync::Arc;

fn agent_executor() -> ApCoreAgentExecutor {
    ApCoreAgentExecutor::new(PartConverter::new(SchemaConverter::new()), 30)
}

fn principal() -> Identity {
    Identity::new("u1".to_string(), "test".to_string(), vec!["admin".to_string()], vec![])
}

#[test]
fn build_context_leaves_caller_id_unset_and_carries_the_principal_in_identity() {
    let ctx = agent_executor().build_context(Some(&principal()));
    assert!(ctx.caller_id.is_none(), "a top-level context must not name a caller");
    assert_eq!(ctx.identity.as_ref().map(|i| i.id.as_str()), Some("u1"));
    assert!(agent_executor().build_context(None).identity.is_none());
}

#[test]
fn acl_context_child_reaches_external_while_keeping_the_real_identity() {
    let base = agent_executor().acl_context(Some(&principal()));
    assert_eq!(base.caller_id.as_deref(), Some(EXTERNAL_CALLER));
    assert_eq!(base.identity.as_ref().map(|i| i.id.as_str()), Some("u1"));

    let outside = Context::<serde_json::Value>::builder()
        .caller_id(base.caller_id.clone())
        .identity(base.identity.as_ref().map(|i| {
            apcore::context::Identity::new(
                i.id.clone(),
                i.identity_type.clone(),
                i.roles.clone(),
                Default::default(),
            )
        }))
        .build();
    let ctx = outside.child("test.echo");
    assert!(
        ctx.caller_id.is_none(),
        "child() re-derives caller_id from an empty call_chain"
    );
    assert_eq!(ctx.identity.as_ref().map(apcore::context::Identity::id), Some("u1"));
    assert_eq!(
        ctx.identity.as_ref().map(apcore::context::Identity::identity_type),
        Some("test")
    );
}

#[test]
fn acl_context_synthesizes_the_external_identity_for_an_anonymous_caller() {
    let ctx = agent_executor().acl_context(None);
    assert_eq!(ctx.caller_id.as_deref(), Some(EXTERNAL_CALLER));
    assert_eq!(ctx.identity.as_ref().map(|i| i.id.as_str()), Some(EXTERNAL_CALLER));
    assert_eq!(ctx.identity.as_ref().map(|i| i.identity_type.as_str()), Some("external"));
}

#[test]
fn the_access_rules_see_the_principal() {
    let rule = ACLRule {
        callers: vec!["@external".into()],
        targets: vec!["*".into()],
        effect: "allow".into(),
        approval: None,
        description: None,
        conditions: Some(serde_json::from_str(r#"{"roles":["admin"]}"#).unwrap()),
    };
    let executor =
        agent_executor().with_acl(Some(Arc::new(ACL::new(vec![rule], "deny", None))));
    let card = Json::parse(r#"{"skills":[{"id":"a"},{"noid":1}],"name":"n"}"#).unwrap();
    assert_eq!(
        acl_filtered_card(&card, &executor, Some(&principal()), false),
        Json::parse(r#"{"skills":[{"id":"a"}],"name":"n"}"#).unwrap()
    );
    assert_eq!(
        acl_filtered_card(&card, &executor, None, false),
        Json::parse(r#"{"skills":[],"name":"n"}"#).unwrap()
    );
}

#[test]
fn settings_are_kept() {
    let e = agent_executor().with_disclose_refusal_reason(true);
    assert!(e.disclose_refusal_reason());
    assert_eq!(e.execution_timeout_secs(), 30);
    assert!(e.acl().is_none());
}

#[test]
fn copies_stay_with_their_callers() {
    let rule = ACLRule {
        callers: vec!["*".into()],
        targets: vec!["a".into()],
        effect: "allow".into(),
        approval: None,
        description: None,
        conditions: Some(serde_json::from_str(r#"{"roles":["admin"]}"#).unwrap()),
    };
    let executor =
        agent_executor().with_acl(Some(Arc::new(ACL::new(vec![rule], "deny", None))));
    let whole = Json::parse(r#"{"skills":[{"id":"a"},{"id":"b"}]}"#).unwrap();
    let full = Json::parse(r#"{"skills":[{"id":"a"}]}"#).unwrap();
    let none = Json::parse(r#"{"skills":[]}"#).unwrap();
    let other = Identity::new("u2".to_string(), "test".to_string(), vec![], vec![]);
    let mut card = FilteredCard::new(whole.copy());
    for _ in 0..3 {
        assert_eq!(card.for_caller(&executor, Some(&principal())), full);
        assert_eq!(card.for_caller(&executor, Some(&other)), none);
        assert_eq!(card.for_caller(&executor, None), none);
        assert_eq!(card.unfiltered(), &whole);
    }
}

#[test]
fn a_kept_copy_outlives_a_change_of_the_rules() {
    let open = agent_executor().with_acl(Some(Arc::new(ACL::new(vec![], "allow", None))));
    let closed = agent_executor().with_acl(Some(Arc::new(ACL::new(vec![], "deny", None))));
    let whole = Json::parse(r#"{"skills":[{"id":"a"}]}"#).unwrap();
    let none = Json::parse(r#"{"skills":[]}"#).unwrap();
    let mut card = FilteredCard::new(whole.copy());
    assert_eq!(card.for_caller(&open, Some(&principal())), whole);
    assert_eq!(card.for_caller(&closed, Some(&principal())), whole);
    assert_eq!(card.for_caller(&closed, None), none);
}

#[test]
fn too_many_copies_are_given_up_at_once() {
    let open = agent_executor().with_acl(Some(Arc::new(ACL::new(vec![], "allow", None))));
    let closed = agent_executor().with_acl(Some(Arc::new(ACL::new(vec![], "deny", None))));
    let whole = Json::parse(r#"{"skills":[{"id":"a"}]}"#).unwrap();
    let none = Json::parse(r#"{"skills":[]}"#).unwrap();
    let mut card = FilteredCard::new(whole.copy());
    let named = |i: usize| Identity::new(format!("c{i}"), "test".to_string(), vec![], vec![]);
    for i in 0..MAX_CACHED_FILTERED_CARDS {
        assert_eq!(card.for_caller(&open, Some(&named(i))), whole);
    }
    assert_eq!(card.for_caller(&closed, Some(&named(0))), whole);
    assert_eq!(card.for_caller(&closed, Some(&named(MAX_CACHED_FILTERED_CARDS))), none);
    assert_eq!(card.for_caller(&closed, Some(&named(0))), none);
}
