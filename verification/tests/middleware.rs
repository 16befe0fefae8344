//! Which requests pass the authentication layer.

use apcore_a2a::auth::identity::Identity;
use apcore_a2a::auth::middleware::{unauthorized_body, Admission, AuthRules};
use apcore_a2a::json::Json;

fn someone() -> Identity {
    Identity::new("u1".into(), "test".into(), vec![], vec![])
}

#[test]
fn require_auth_true_rejects_with_401() {
    let rules = AuthRules::new(vec![]);
    assert!(matches!(rules.screen("/jsonrpc", None), Admission::Reject));
    assert_eq!(
        unauthorized_body(),
        Json::parse(r#"{"error":"Unauthorized","detail":"Missing or invalid Bearer token"}"#).unwrap()
    );
}

#[test]
fn require_auth_false_permits_downstream() {
    let rules = AuthRules::with_require_auth(vec![], false);
    assert!(matches!(rules.screen("/jsonrpc", None), Admission::Forward(None)));
}

#[test]
fn exempt_path_skips_auth() {
    let rules = AuthRules::new(vec!["/.well-known/".to_string()]);
    assert!(matches!(
        rules.screen("/.well-known/agent-card.json", None),
        Admission::Forward(None)
    ));
}

#[test]
fn an_identity_travels_on_but_not_past_an_exempt_path() {
    let rules = AuthRules::new(vec!["/health".to_string()]);
    match rules.screen("/", Some(someone())) {
        Admission::Forward(Some(i)) => assert_eq!(i.id, "u1"),
        other => panic!("{other:?}"),
    }
    assert!(rules.is_exempt("/health"));
    assert!(rules.is_exempt("/healthz"));
    assert!(!rules.is_exempt("/heal"));
    assert!(matches!(rules.screen("/health", Some(someone())), Admission::Forward(None)));
}
