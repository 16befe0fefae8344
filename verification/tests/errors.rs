//! Module errors as JSON-RPC errors, and the redaction of messages.

use apcore_a2a::adapters::errors::{
    carries_caller_detail, is_server_side_schema_error, sanitize_message, ErrorCode, ModuleError,
    CODE_ACCESS_DENIED, CODE_APPROVAL_DENIED, CODE_APPROVAL_TIMEOUT, CODE_INTERNAL_ERROR,
    CODE_INVALID_PARAMS, CODE_METHOD_NOT_FOUND, CODE_TASK_NOT_FOUND,
};
use apcore_a2a::json::Json;
use apcore_a2a::{A2aErrorFormatter, AdapterError, ErrorMapper};

const ALL: [ErrorCode; 84] = [
    ErrorCode::ConfigNotFound,
    ErrorCode::ConfigInvalid,
    ErrorCode::ACLRuleError,
    ErrorCode::ACLDenied,
    ErrorCode::ModuleNotFound,
    ErrorCode::ModuleDisabled,
    ErrorCode::ModuleTimeout,
    ErrorCode::ModuleLoadError,
    ErrorCode::ModuleExecuteError,
    ErrorCode::ReloadFailed,
    ErrorCode::ExecutionCancelled,
    ErrorCode::SchemaValidationError,
    ErrorCode::SchemaNotFound,
    ErrorCode::SchemaParseError,
    ErrorCode::SchemaCircularRef,
    ErrorCode::SchemaUnionNoMatch,
    ErrorCode::SchemaUnionAmbiguous,
    ErrorCode::SchemaMaxDepthExceeded,
    ErrorCode::CallDepthExceeded,
    ErrorCode::CircularCall,
    ErrorCode::CallFrequencyExceeded,
    ErrorCode::GeneralInvalidInput,
    ErrorCode::InvalidModuleId,
    ErrorCode::GeneralInternalError,
    ErrorCode::GeneralNotImplemented,
    ErrorCode::FuncMissingTypeHint,
    ErrorCode::FuncMissingReturnType,
    ErrorCode::BindingInvalidTarget,
    ErrorCode::BindingModuleNotFound,
    ErrorCode::BindingCallableNotFound,
    ErrorCode::BindingNotCallable,
    ErrorCode::BindingSchemaMissing,
    ErrorCode::BindingSchemaInferenceFailed,
    ErrorCode::BindingSchemaModeConflict,
    ErrorCode::BindingStrictSchemaIncompatible,
    ErrorCode::BindingFileInvalid,
    ErrorCode::CircularDependency,
    ErrorCode::MiddlewareChainError,
    ErrorCode::ApprovalDenied,
    ErrorCode::ApprovalTimeout,
    ErrorCode::ApprovalPending,
    ErrorCode::VersionIncompatible,
    ErrorCode::ErrorCodeCollision,
    ErrorCode::DependencyNotFound,
    ErrorCode::DependencyVersionMismatch,
    ErrorCode::ConfigNamespaceDuplicate,
    ErrorCode::ConfigNamespaceReserved,
    ErrorCode::ConfigEnvPrefixConflict,
    ErrorCode::ConfigMountError,
    ErrorCode::ConfigBindError,
    ErrorCode::ConfigEnvMapConflict,
    ErrorCode::ErrorFormatterDuplicate,
    ErrorCode::PipelineAbort,
    ErrorCode::PipelineConfigInvalid,
    ErrorCode::PipelineConfigurationError,
    ErrorCode::PipelineHandlerNotSupported,
    ErrorCode::PipelineStepInsertionAmbiguous,
    ErrorCode::PipelineStepError,
    ErrorCode::PipelineStepNotFound,
    ErrorCode::PipelineDependencyError,
    ErrorCode::StepNotFound,
    ErrorCode::StepNotRemovable,
    ErrorCode::StepNotReplaceable,
    ErrorCode::StepNameDuplicate,
    ErrorCode::StrategyNotFound,
    ErrorCode::EntryPointNotFound,
    ErrorCode::EntryPointAmbiguous,
    ErrorCode::EntryPointRuntimeUnsupported,
    ErrorCode::NoDiscovererConfigured,
    ErrorCode::TaskLimitExceeded,
    ErrorCode::ReaperAlreadyRunning,
    ErrorCode::VersionConstraintInvalid,
    ErrorCode::InvalidParentId,
    ErrorCode::ModuleIdConflict,
    ErrorCode::InvalidSegment,
    ErrorCode::IdTooLong,
    ErrorCode::CircuitBreakerOpen,
    ErrorCode::ModuleReloadConflict,
    ErrorCode::SysModuleRegistrationFailed,
    ErrorCode::SysModulesDisabled,
    ErrorCode::ConfigKeyRestricted,
    ErrorCode::StreamingInterfaceMismatch,
    ErrorCode::DuplicateModuleId,
    ErrorCode::ContextBindingError,
];

fn make_error(code: ErrorCode, message: &str) -> ModuleError {
    ModuleError::new(code, message)
}

#[test]
fn every_code_of_apcore_is_known() {
    let ours: Vec<String> = ALL.iter().map(|c| format!("{c:?}")).collect();
    let theirs: Vec<String> =
        apcore::errors::ErrorCode::ALL.iter().map(|c| format!("{c:?}")).collect();
    assert_eq!(ours, theirs);
}

#[test]
fn test_module_not_found() {
    let err = make_error(ErrorCode::ModuleNotFound, "module foo not found");
    let resp = ErrorMapper::to_jsonrpc_error(&err);
    assert_eq!(resp.code, CODE_METHOD_NOT_FOUND);
    assert!(resp.message.contains("module foo not found"));
}

#[test]
fn acl_denial_reports_access_denied_not_task_not_found() {
    let err = make_error(
        ErrorCode::ACLDenied,
        "Access denied: caller 'svc-db-writer' cannot access module 'admin.users.delete'",
    );
    let resp = ErrorMapper::to_jsonrpc_error(&err);
    assert_eq!(resp.code, CODE_ACCESS_DENIED);
    assert_eq!(resp.message, "Access denied");
    assert!(!resp.message.contains("svc-db-writer"));
    assert!(!resp.message.contains("admin.users.delete"));
}

#[test]
fn approval_denial_leaves_the_retryable_catch_all() {
    let err = make_error(
        ErrorCode::ApprovalDenied,
        "Approval denied by alice@example.com for approval 7f3c1e",
    );
    let resp = ErrorMapper::to_jsonrpc_error(&err);
    assert_eq!(resp.code, CODE_APPROVAL_DENIED);
    assert_eq!(resp.message, "Approval denied");
    assert!(!resp.message.contains("alice@example.com"));
    assert!(!resp.message.contains("7f3c1e"));
}

#[test]
fn approval_timeout_is_distinct_from_execution_timeout() {
    let err = make_error(
        ErrorCode::ApprovalTimeout,
        "Approval 7f3c1e timed out after 300s waiting on alice@example.com",
    );
    let resp = ErrorMapper::to_jsonrpc_error(&err);
    assert_eq!(resp.code, CODE_APPROVAL_TIMEOUT);
    assert_eq!(resp.message, "Approval timed out");
    assert_ne!(resp.message, "Execution timeout");
    assert!(!resp.message.contains("alice@example.com"));
}

#[test]
fn approval_pending_is_not_swept_into_the_governance_block() {
    let err = make_error(ErrorCode::ApprovalPending, "Approval required: id=7f3c1e");
    let resp = ErrorMapper::to_jsonrpc_error(&err);
    assert_eq!(resp.code, CODE_INTERNAL_ERROR);
    for governance in [CODE_ACCESS_DENIED, CODE_APPROVAL_DENIED, CODE_APPROVAL_TIMEOUT] {
        assert_ne!(resp.code, governance);
    }
}

#[test]
fn task_not_found_code_is_no_longer_spent_on_authorization() {
    for code in ALL {
        let err = make_error(code, "whatever");
        assert_ne!(
            ErrorMapper::to_jsonrpc_error(&err).code,
            CODE_TASK_NOT_FOUND,
            "{code:?} still maps to -32001"
        );
    }
}

#[test]
fn disclose_refusal_reason_widens_the_message_but_never_the_code() {
    for (code, fixed) in [
        (ErrorCode::ACLDenied, "Access denied"),
        (ErrorCode::ApprovalDenied, "Approval denied"),
        (ErrorCode::ApprovalTimeout, "Approval timed out"),
    ] {
        let err = make_error(code, "caller 'svc-db-writer' cannot access 'admin.users.delete'");
        let masked = ErrorMapper::to_jsonrpc_error_with(&err, false);
        let disclosed = ErrorMapper::to_jsonrpc_error_with(&err, true);
        assert_eq!(masked.message, fixed);
        assert_eq!(masked.code, disclosed.code, "the flag must not move the code");
        assert!(disclosed.message.contains("svc-db-writer"));
    }
}

#[test]
fn disclose_refusal_reason_falls_back_when_apcore_says_nothing() {
    let err = make_error(ErrorCode::ACLDenied, "   ");
    assert_eq!(
        ErrorMapper::to_jsonrpc_error_with(&err, true).message,
        "Access denied",
        "an empty apcore message must not send the caller an empty string"
    );
}

#[test]
fn test_safety_limit() {
    let err = make_error(ErrorCode::CallDepthExceeded, "depth exceeded");
    let resp = ErrorMapper::to_jsonrpc_error(&err);
    assert_eq!(resp.code, CODE_INTERNAL_ERROR);
    assert_eq!(resp.message, "Safety limit exceeded");
}

#[test]
fn test_module_disabled() {
    let err = make_error(ErrorCode::ModuleDisabled, "disabled");
    let resp = ErrorMapper::to_jsonrpc_error(&err);
    assert_eq!(resp.code, CODE_INTERNAL_ERROR);
    assert_eq!(resp.message, "Module is currently disabled");
}

#[test]
fn test_config_error() {
    let err = make_error(ErrorCode::ConfigNamespaceDuplicate, "dup");
    let resp = ErrorMapper::to_jsonrpc_error(&err);
    assert_eq!(resp.code, CODE_INTERNAL_ERROR);
    assert_eq!(resp.message, "Configuration error");
}

#[test]
fn test_unknown_error_internal() {
    let err = make_error(ErrorCode::GeneralInternalError, "boom");
    let resp = ErrorMapper::to_jsonrpc_error(&err);
    assert_eq!(resp.code, CODE_INTERNAL_ERROR);
    assert_eq!(resp.message, "Internal server error");
}

#[test]
fn test_sanitize_strips_paths() {
    let msg = sanitize_message("error at /home/user/secret/file.py line 42");
    assert!(!msg.contains("/home"));
}

#[test]
fn test_sanitize_strips_tracebacks() {
    let msg = sanitize_message(
        "boom\nTraceback (most recent call last):\nFile \"x.rs\", line 42, in foo\nactual error",
    );
    assert!(!msg.contains("Traceback"));
    assert!(!msg.contains("File \""));
    assert!(!msg.contains("line 42"));
    assert!(msg.contains("boom"));
    assert!(msg.contains("actual error"));
}

#[test]
fn test_sanitize_collapses_whitespace() {
    let msg = sanitize_message("a\n\n   b\t\tc");
    assert_eq!(msg, "a b c");
}

#[test]
fn test_execution_cancelled() {
    let err = make_error(ErrorCode::ExecutionCancelled, "cancelled");
    let resp = ErrorMapper::to_jsonrpc_error(&err);
    assert_eq!(resp.code, CODE_INTERNAL_ERROR);
    assert_eq!(resp.message, "Execution cancelled");
}

#[test]
fn test_circuit_breaker_open() {
    let err = make_error(ErrorCode::CircuitBreakerOpen, "open");
    let resp = ErrorMapper::to_jsonrpc_error(&err);
    assert_eq!(resp.code, CODE_INTERNAL_ERROR);
    assert_eq!(resp.message, "Service temporarily unavailable");
}

#[test]
fn test_task_limit_exceeded() {
    let err = make_error(ErrorCode::TaskLimitExceeded, "too many");
    let resp = ErrorMapper::to_jsonrpc_error(&err);
    assert_eq!(resp.code, CODE_INTERNAL_ERROR);
    assert_eq!(resp.message, "Service temporarily unavailable");
}

#[test]
fn test_sanitize_truncation_multibyte_no_panic() {
    let input: String = "\u{3042}".repeat(600);
    let out = sanitize_message(&input);
    assert!(out.chars().count() <= 500);
    assert_eq!(out.chars().count(), 500);
}

#[test]
fn error_mapper_message_policy_matches_to_jsonrpc_error() {
    const SENTINEL: &str = "canary-2f8a";
    for disclose in [false, true] {
        for code in ALL {
            let err = make_error(code, SENTINEL);
            let mapped = ErrorMapper::to_jsonrpc_error_with(&err, disclose);
            assert_eq!(
                mapped.message.contains(SENTINEL),
                carries_caller_detail(&err, disclose),
                "{code:?} (disclose={disclose})"
            );
        }
    }
    for message in [
        "Output validation failed",
        "Config validation failed",
        "Output schema is invalid: bad $ref",
    ] {
        let err = make_error(ErrorCode::SchemaValidationError, message);
        assert!(!carries_caller_detail(&err, false), "{message}");
        assert_eq!(
            ErrorMapper::to_jsonrpc_error(&err).message,
            "Internal server error",
            "{message}"
        );
    }
}

#[test]
fn output_validation_failure_is_not_reported_as_caller_fixable() {
    let err = make_error(ErrorCode::SchemaValidationError, "Output validation failed")
        .with_ai_guidance("Output failed schema validation. Check the 'errors' field in details.");
    let resp = ErrorMapper::to_jsonrpc_error(&err);
    assert_eq!(resp.code, CODE_INTERNAL_ERROR);
    assert_eq!(resp.message, "Internal server error");

    for message in ["Input validation failed", "width: must be integer"] {
        let resp =
            ErrorMapper::to_jsonrpc_error(&make_error(ErrorCode::SchemaValidationError, message));
        assert_eq!(resp.code, CODE_INVALID_PARAMS, "{message}");
        assert_eq!(resp.message, message, "{message}");
    }
}

#[test]
fn sanitizing_is_exact_on_paths_and_spaces() {
    assert_eq!(sanitize_message("see ~/.ssh/id and /etc/passwd now"), "see and now");
    assert_eq!(sanitize_message("ratio 3/4 a~b ~ /"), "ratio 3 a~b ~");
    assert_eq!(sanitize_message("\u{3000}x\u{a0}\u{2003}y\u{85}"), "x y");
    assert_eq!(sanitize_message("plain text, kept as it is"), "plain text, kept as it is");
    assert_eq!(sanitize_message("online 24 hours"), "");
    assert_eq!(sanitize_message("deadline passed"), "deadline passed");
    assert_eq!(sanitize_message(""), "");
    assert_eq!(sanitize_message(&"ab ".repeat(300)).chars().count(), 500);
}

#[test]
fn server_side_schema_errors_are_told_by_their_exact_words() {
    assert!(is_server_side_schema_error("Output validation failed"));
    assert!(is_server_side_schema_error("Config schema is invalid: x"));
    assert!(!is_server_side_schema_error("Output validation failed: x"));
    assert!(!is_server_side_schema_error("Config schema is invalid"));
    assert!(!is_server_side_schema_error("Input validation failed"));
}

#[test]
fn invalid_input_is_named_as_such() {
    let err = make_error(ErrorCode::GeneralInvalidInput, "bad  flag");
    let resp = ErrorMapper::to_jsonrpc_error(&err);
    assert_eq!(resp.code, CODE_INVALID_PARAMS);
    assert_eq!(resp.message, "Invalid input: bad flag");
}

#[test]
fn fixed_texts_of_the_remaining_classes() {
    for (code, text) in [
        (ErrorCode::ModuleTimeout, "Execution timeout"),
        (ErrorCode::CircularCall, "Safety limit exceeded"),
        (ErrorCode::CallFrequencyExceeded, "Safety limit exceeded"),
        (ErrorCode::ConfigMountError, "Configuration error"),
        (ErrorCode::ConfigBindError, "Configuration error"),
        (ErrorCode::DependencyNotFound, "Internal server error"),
    ] {
        assert_eq!(ErrorMapper::to_jsonrpc_error(&make_error(code, "secret")).message, text);
    }
}

#[test]
fn the_formatter_renders_code_and_message() {
    let err = make_error(ErrorCode::ACLDenied, "secret");
    assert_eq!(
        A2aErrorFormatter.format(&err),
        Json::parse(r#"{"code":-32040,"message":"Access denied"}"#).unwrap()
    );
}

#[test]
fn adapter_errors_say_what_happened() {
    assert_eq!(
        AdapterError::SchemaConversion("x".into()).message(),
        "schema conversion failed: x"
    );
    assert_eq!(
        AdapterError::InvalidModuleId { id: "a b".into() }.message(),
        "invalid module ID 'a b'"
    );
}

#[test]
fn a_blank_reason_gives_way_to_the_fixed_text() {
    for (code, fixed) in [
        (ErrorCode::ACLDenied, "Access denied"),
        (ErrorCode::ApprovalDenied, "Approval denied"),
        (ErrorCode::ApprovalTimeout, "Approval timed out"),
    ] {
        for message in ["", " ", "\t\n", "\u{a0}\u{3000}"] {
            let err = make_error(code, message);
            assert_eq!(ErrorMapper::to_jsonrpc_error_with(&err, true).message, fixed);
        }
        let hidden = make_error(code, "not for you");
        assert_eq!(ErrorMapper::to_jsonrpc_error_with(&hidden, false).message, fixed);
        assert_eq!(ErrorMapper::to_jsonrpc_error_with(&hidden, true).message, "not for you");
    }
}

#[test]
fn without_marks_only_paths_and_spaces_go() {
    assert_eq!(sanitize_message("  no\n such\t/var/lib/x  file  "), "no such file");
    assert_eq!(sanitize_message("/opt/app/main.rs"), "");
    let long = format!("{}  {}", "a".repeat(300), "b".repeat(300));
    assert_eq!(sanitize_message(&long), format!("{} {}", "a".repeat(300), "b".repeat(199)));
}
