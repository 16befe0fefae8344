//! What a caller reads of a failed module.

use apcore_a2a::adapters::errors::{ErrorCode, ModuleError};
use apcore_a2a::server::handlers::{
    after_attempt, error_to_status, push_target, skill_id_of, store_failure,
    unsupported_media_type, PushStep,
};
use apcore_a2a::storage::StoreError;
use apcore_a2a::json::Json;
use apcore_a2a::types::{Part, TaskState, TaskStatus};

fn j(text: &str) -> Json {
    Json::parse(text).expect("valid JSON")
}

fn status_text(status: &TaskStatus) -> Option<String> {
    status.message.as_ref().and_then(|m| {
        m.parts.iter().find_map(|p| match p {
            Part::Text { text } => Some(text.clone()),
            _ => None,
        })
    })
}

#[test]
fn internal_error_yields_fixed_internal_server_error_message() {
    let err = ModuleError::new(
        ErrorCode::GeneralInternalError,
        "super secret internal detail leaking through",
    );
    let status = error_to_status(&err, false);
    assert_eq!(status.state, TaskState::Failed);
    assert_eq!(status_text(&status).as_deref(), Some("Internal server error"));
}

#[test]
fn acl_denial_is_rejected_not_failed_and_says_access_denied() {
    let err = ModuleError::new(ErrorCode::ACLDenied, "caller alice denied module admin.wipe");
    let status = error_to_status(&err, false);
    assert_eq!(status.state, TaskState::Rejected);
    let text = status_text(&status).unwrap();
    assert_eq!(text, "Access denied");
    assert_ne!(text, "Task not found");
    assert!(!text.contains("alice"));
    assert!(!text.contains("admin.wipe"));
}

#[test]
fn approval_refusals_are_rejected_not_failed() {
    for (code, expected) in [
        (ErrorCode::ApprovalDenied, "Approval denied"),
        (ErrorCode::ApprovalTimeout, "Approval timed out"),
    ] {
        let err = ModuleError::new(code, "approval 7f3c1e for alice@example.com");
        let status = error_to_status(&err, false);
        assert_eq!(status.state, TaskState::Rejected, "{code:?}");
        let text = status_text(&status).unwrap();
        assert_eq!(text, expected);
        assert_ne!(text, "Internal server error");
        assert!(!text.contains("alice@example.com"), "{code:?}");
        assert!(!text.contains("7f3c1e"), "{code:?}");
    }
}

#[test]
fn approval_pending_stays_a_resumable_pause() {
    let err = ModuleError::new(ErrorCode::ApprovalPending, "Approval required: approval_id=7f3c1e");
    let status = error_to_status(&err, false);
    assert_eq!(status.state, TaskState::InputRequired);
    assert_eq!(
        status_text(&status).as_deref(),
        Some("Approval required: approval_id=7f3c1e"),
        "the message must reach the caller verbatim"
    );
}

#[test]
fn disclose_refusal_reason_reaches_the_task_status_surface() {
    let err = ModuleError::new(ErrorCode::ACLDenied, "caller alice denied module admin.wipe");
    let status = error_to_status(&err, true);
    assert_eq!(status.state, TaskState::Rejected, "the flag must not move the state");
    let text = status_text(&status).unwrap();
    assert!(text.contains("alice"));
    assert!(text.contains("admin.wipe"));
}

#[test]
fn invalid_input_error_reaches_the_caller() {
    let err = ModuleError::new(
        ErrorCode::GeneralInvalidInput,
        "Parameters '1' and 'l' cannot be used together",
    );
    let status = error_to_status(&err, false);
    assert_eq!(status.state, TaskState::Failed);
    let text = status_text(&status).unwrap();
    assert!(text.contains("'1' and 'l' cannot be used together"), "{text}");
}

#[test]
fn schema_validation_error_names_the_field() {
    let err = ModuleError::new(ErrorCode::SchemaValidationError, "width: must be integer");
    let text = status_text(&error_to_status(&err, false)).unwrap();
    assert!(text.contains("width"), "{text}");
}

#[test]
fn ai_guidance_is_appended_for_caller_fixable_errors() {
    let err = ModuleError::new(ErrorCode::GeneralInvalidInput, "bad flag combination")
        .with_ai_guidance("send either -1 or -l, not both");
    let text = status_text(&error_to_status(&err, false)).unwrap();
    assert!(text.contains("send either -1 or -l, not both"), "{text}");
    assert_eq!(text, "Invalid input: bad flag combination (send either -1 or -l, not both)");
}

#[test]
fn ai_guidance_is_withheld_for_internal_errors() {
    assert_eq!(
        apcore::errors::user_fixable_for_code(apcore::errors::ErrorCode::DependencyNotFound),
        Some(true),
        "precondition for this test"
    );
    let err = ModuleError::new(ErrorCode::DependencyNotFound, "boom")
        .with_user_fixable(true)
        .with_ai_guidance("module 'billing.charge' requires 'vault.secrets' >= 2.1; set VAULT_ADDR");
    assert_eq!(err.user_fixable, Some(true), "precondition for this test");
    assert_eq!(
        status_text(&error_to_status(&err, false)).as_deref(),
        Some("Internal server error")
    );

    let internal = ModuleError::new(ErrorCode::GeneralInternalError, "boom")
        .with_ai_guidance("inspect /var/log/secret.log");
    assert_eq!(
        status_text(&error_to_status(&internal, false)).as_deref(),
        Some("Internal server error")
    );
}

#[test]
fn ai_guidance_is_withheld_when_a_module_declares_a_masked_error_user_fixable() {
    let err = ModuleError::new(ErrorCode::ACLDenied, "caller alice denied admin.wipe")
        .with_user_fixable(true)
        .with_ai_guidance("ask an admin to grant you the 'admin.wipe' role");
    assert_eq!(
        status_text(&error_to_status(&err, false)).as_deref(),
        Some("Access denied")
    );
}

#[test]
fn timeout_error_keeps_specific_message() {
    let err = ModuleError::new(ErrorCode::ModuleTimeout, "ignored");
    let status = error_to_status(&err, false);
    assert_eq!(status.state, TaskState::Failed);
    assert_eq!(status_text(&status).as_deref(), Some("Execution timed out"));
}

#[test]
fn a_cancelled_execution_leaves_a_canceled_task() {
    let err = ModuleError::new(ErrorCode::ExecutionCancelled, "ignored");
    let status = error_to_status(&err, false);
    assert_eq!(status.state, TaskState::Canceled);
    assert_eq!(status_text(&status).as_deref(), Some("Execution cancelled"));
}

#[test]
fn blank_guidance_is_left_out() {
    let err = ModuleError::new(ErrorCode::GeneralInvalidInput, "x").with_ai_guidance(" \n ");
    assert_eq!(status_text(&error_to_status(&err, false)).as_deref(), Some("Invalid input: x"));
}

#[test]
fn content_types() {
    for ok in [
        "application/json",
        "Application/JSON; charset=utf-8",
        " application/json ",
        "application/ld+json",
        "",
        " ; x",
    ] {
        assert!(!unsupported_media_type(Some(ok)), "{ok:?}");
    }
    for bad in ["text/plain", "application/jsonx", "application/LD+JSON", "json"] {
        assert!(unsupported_media_type(Some(bad)), "{bad:?}");
    }
    assert!(!unsupported_media_type(None));
}

#[test]
fn a_skill_is_named_by_the_request_or_by_its_message() {
    assert_eq!(skill_id_of(&j(r#"{"metadata":{"skillId":"a"}}"#)).as_deref(), Some("a"));
    assert_eq!(
        skill_id_of(&j(r#"{"metadata":{},"message":{"metadata":{"skillId":"b"}}}"#)).as_deref(),
        Some("b")
    );
    assert_eq!(
        skill_id_of(&j(r#"{"metadata":{"skillId":1},"message":{"metadata":{"skillId":"b"}}}"#)),
        None
    );
    assert_eq!(skill_id_of(&j("{}")), None);
}

#[test]
fn webhooks_need_a_url_and_are_tried_three_times() {
    let t = push_target(&Ok(Some(j(r#"{"url":"http://h","token":"k"}"#)))).unwrap();
    assert_eq!(t.url, "http://h");
    assert_eq!(t.token.as_deref(), Some("k"));
    assert!(push_target(&Ok(Some(j(r#"{"token":"k"}"#)))).is_none());
    assert!(push_target(&Ok(None)).is_none());
    assert!(push_target(&Err(StoreError::LockPoisoned)).is_none());
    assert_eq!(after_attempt(0, false), PushStep::RetryAfter(1));
    assert_eq!(after_attempt(1, false), PushStep::RetryAfter(2));
    assert_eq!(after_attempt(2, false), PushStep::GiveUp);
    assert_eq!(after_attempt(1, true), PushStep::Done);
}

#[test]
fn a_store_failure_is_the_server_s() {
    let e = store_failure(&StoreError::backend_msg("secret"));
    assert_eq!(e.code, -32603);
    assert_eq!(e.message, "Internal server error");
}
