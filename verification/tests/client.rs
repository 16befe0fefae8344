//! Calls to a remote agent and the reading of its answers.

use apcore_a2a::client::client::{
    attach_task_id, build_message_params, http_failure, invalid_response, stream_http_failure,
    validate_url,
};
use apcore_a2a::client::exceptions::{
    CODE_ACCESS_DENIED, CODE_APPROVAL_DENIED, CODE_APPROVAL_TIMEOUT, CODE_INTERNAL_ERROR,
    CODE_TASK_NOT_FOUND,
};
use apcore_a2a::client::sse::{
    is_terminal_event, stream_frame_error, unwrap_stream_envelope, SseReader, StreamItem,
};
use apcore_a2a::json::Json;
use apcore_a2a::{A2AClient, A2AClientError, AgentCardFetcher};

fn j(text: &str) -> Json {
    Json::parse(text).expect("valid JSON")
}

fn field<'a>(v: &'a Json, path: &[&str]) -> &'a Json {
    path.iter().fold(v, |v, k| v.get(k).expect("member"))
}

#[test]
fn stream_error_frame_maps_to_the_same_error_as_a_unary_call() {
    let frame = j(
        r#"{"jsonrpc":"2.0","id":"req-1","error":{"code":-32001,"message":"Task not found"}}"#,
    );
    assert!(matches!(
        stream_frame_error(&frame),
        Some(A2AClientError::TaskNotFound { .. })
    ));
}

#[test]
fn stream_error_frame_ignores_ordinary_events() {
    let event = j(
        r#"{"jsonrpc":"2.0","id":"req-1","result":{"statusUpdate":{"status":{"state":"TASK_STATE_WORKING"}}}}"#,
    );
    assert!(stream_frame_error(&event).is_none());
    assert!(stream_frame_error(&j(r#"{"statusUpdate":{}}"#)).is_none());
}

#[test]
fn validate_url_accepts_http_and_https() {
    assert!(validate_url("http://localhost:8000").is_ok());
    assert!(validate_url("https://agent.example.com/").is_ok());
}

#[test]
fn validate_url_rejects_bad_scheme() {
    assert!(validate_url("ftp://host").is_err());
    assert!(validate_url("not-a-url").is_err());
    assert!(validate_url("http://").is_err());
}

#[test]
fn validate_url_ignores_case_and_wants_a_host() {
    assert!(validate_url("HTTPS://Agent.example").is_ok());
    assert!(validate_url("http:///path").is_err());
    match validate_url("ftp://host") {
        Err(A2AClientError::InvalidUrl(u)) => assert_eq!(u, "ftp://host"),
        other => panic!("{other:?}"),
    }
}

#[test]
fn build_params_omits_context_when_none() {
    let p = build_message_params(j(r#"{"role":"user"}"#), None, &None);
    assert!(p.get("contextId").is_none());
    assert_eq!(p.get("metadata"), Some(&j("{}")));
}

#[test]
fn build_params_includes_context_and_metadata() {
    let p = build_message_params(
        j(r#"{"role":"user"}"#),
        Some(j(r#"{"skillId":"x"}"#)),
        &Some("ctx-1".to_string()),
    );
    assert_eq!(p.get("contextId"), Some(&j(r#""ctx-1""#)));
    assert_eq!(field(&p, &["metadata", "skillId"]), &j(r#""x""#));
}

#[test]
fn terminal_event_detection() {
    let completed = j(r#"{"statusUpdate":{"status":{"state":"TASK_STATE_COMPLETED"}}}"#);
    let working = j(r#"{"statusUpdate":{"status":{"state":"TASK_STATE_WORKING"}}}"#);
    assert!(is_terminal_event(&completed));
    assert!(!is_terminal_event(&working));
    assert!(!is_terminal_event(&j(r#"{"artifactUpdate":{}}"#)));
}

#[test]
fn jsonrpc_error_maps_to_typed() {
    assert!(matches!(
        A2AClientError::from_jsonrpc(-32001, "x"),
        A2AClientError::TaskNotFound { .. }
    ));
    assert!(matches!(
        A2AClientError::from_jsonrpc(-32002, "x"),
        A2AClientError::TaskNotCancelable { .. }
    ));
    assert!(matches!(
        A2AClientError::from_jsonrpc(-32603, "boom"),
        A2AClientError::Server { code: -32603, .. }
    ));
}

#[test]
fn governance_codes_map_to_typed_variants_not_the_server_catch_all() {
    for (code, expected_governance) in [
        (CODE_ACCESS_DENIED, true),
        (CODE_APPROVAL_DENIED, true),
        (CODE_APPROVAL_TIMEOUT, true),
        (CODE_INTERNAL_ERROR, false),
        (CODE_TASK_NOT_FOUND, false),
    ] {
        let err = A2AClientError::from_jsonrpc(code, "whatever the server said");
        assert_eq!(err.is_governance_refusal(), expected_governance, "{code}");
    }
}

#[test]
fn an_access_denial_is_not_reported_as_task_not_found() {
    assert!(matches!(
        A2AClientError::from_jsonrpc(CODE_ACCESS_DENIED, "Access denied"),
        A2AClientError::AccessDenied { .. }
    ));
    assert!(matches!(
        A2AClientError::from_jsonrpc(CODE_TASK_NOT_FOUND, "Task not found"),
        A2AClientError::TaskNotFound { .. }
    ));
}

#[test]
fn errors_say_what_happened() {
    let says = |e: A2AClientError| e.message();
    assert_eq!(says(A2AClientError::Connection("x".into())), "A2A connection error: x");
    assert_eq!(says(A2AClientError::Discovery("x".into())), "A2A discovery error: x");
    assert_eq!(says(A2AClientError::TaskNotFound { task_id: None }), "Task not found");
    assert_eq!(
        says(A2AClientError::TaskNotFound { task_id: Some("t1".into()) }),
        "Task not found: t1"
    );
    assert_eq!(
        says(A2AClientError::TaskNotCancelable { state: Some("s".into()) }),
        "Task not cancelable: s"
    );
    assert_eq!(
        says(A2AClientError::AccessDenied { message: "m".into() }),
        "Access denied: m"
    );
    assert_eq!(
        says(A2AClientError::ApprovalDenied { message: "m".into() }),
        "Approval denied: m"
    );
    assert_eq!(
        says(A2AClientError::ApprovalTimeout { message: "m".into() }),
        "Approval timed out: m"
    );
    assert_eq!(
        says(A2AClientError::Server { code: -32603, message: "m".into() }),
        "A2A server error (-32603): m"
    );
    assert_eq!(
        says(A2AClientError::InvalidUrl("u".into())),
        "Invalid A2A agent URL: u (must be http:// or https://)"
    );
    assert_eq!(says(http_failure("404 Not Found")), "A2A connection error: HTTP 404 Not Found");
    assert_eq!(
        says(stream_http_failure("502 Bad Gateway")),
        "A2A connection error: stream returned HTTP 502 Bad Gateway"
    );
    assert_eq!(
        says(invalid_response("eof")),
        "A2A connection error: invalid JSON response: eof"
    );
}

#[test]
fn invalid_url_rejected_at_construction() {
    match A2AClient::try_new("ftp://nope", None, None, None) {
        Err(A2AClientError::InvalidUrl(_)) => {}
        Ok(_) => panic!("expected InvalidUrl error"),
        Err(other) => panic!("expected InvalidUrl, got {other:?}"),
    }
}

#[test]
fn authorization_must_fit_into_a_header() {
    match A2AClient::try_new("http://a", Some("Bearer\nx".to_string()), None, None) {
        Err(A2AClientError::InvalidUrl(m)) => {
            assert_eq!(m, "invalid auth header: failed to parse header value")
        }
        other => panic!("{other:?}"),
    }
    let c = A2AClient::try_new("http://a//", Some("Bearer x".to_string()), Some(5), None).unwrap();
    assert_eq!(c.authorization().as_deref(), Some("Bearer x"));
    assert_eq!(c.timeout_ms(), 5);
    assert_eq!(A2AClient::new("http://a").timeout_ms(), 30_000);
}

#[test]
fn calls_carry_method_parameters_and_a_fresh_id() {
    let c = A2AClient::new("http://agent.example/");
    let get = c.get_task("t1");
    assert_eq!(get.url, "http://agent.example/");
    assert_eq!(get.body.get_str("method"), Some("tasks/get"));
    assert_eq!(field(&get.body, &["params"]), &j(r#"{"id":"t1"}"#));
    assert_eq!(get.version, None);
    let id = get.body.get_str("id").unwrap().to_string();
    assert_eq!(id.len(), 36);
    assert_ne!(Some(id.as_str()), c.get_task("t1").body.get_str("id"));

    let list = c.list_tasks(Some("ctx".to_string()), 50);
    assert_eq!(list.body.get_str("method"), Some("ListTasks"));
    assert_eq!(field(&list.body, &["params"]), &j(r#"{"pageSize":50,"contextId":"ctx"}"#));
    assert_eq!(list.version.as_deref(), Some("1.0"));

    let cancel = c.cancel_task("t2");
    assert_eq!(cancel.body.get_str("method"), Some("tasks/cancel"));
    let send = c.send_message(j(r#"{"role":"ROLE_USER"}"#), None, None);
    assert_eq!(send.body.get_str("method"), Some("message/send"));
    let stream = c.stream_message(j("{}"), None, None);
    assert_eq!(stream.body.get_str("method"), Some("message/stream"));
}

#[test]
fn answers_become_results_or_typed_errors() {
    let c = A2AClient::new("http://a");
    let call = c.get_task("does-not-exist");
    assert_eq!(call.conclude(&j(r#"{"result":{"id":"t"}}"#)).unwrap(), j(r#"{"id":"t"}"#));
    assert_eq!(call.conclude(&j("{}")).unwrap(), Json::Null);
    match call.conclude(&j(r#"{"error":{"code":-32001,"message":"Task not found"}}"#)) {
        Err(A2AClientError::TaskNotFound { task_id }) => {
            assert_eq!(task_id.as_deref(), Some("does-not-exist"))
        }
        other => panic!("{other:?}"),
    }
    match c.list_tasks(None, 1).conclude(&j(r#"{"error":{}}"#)) {
        Err(A2AClientError::Server { code: -32603, message }) => assert_eq!(message, ""),
        other => panic!("{other:?}"),
    }
    // A code beyond 32 bits is cut down to them.
    match call.conclude(&j(r#"{"error":{"code":4294967297,"message":"m"}}"#)) {
        Err(A2AClientError::Server { code: 1, .. }) => {}
        other => panic!("{other:?}"),
    }
}

#[test]
fn a_task_id_is_attached_only_where_it_is_missing() {
    let e = attach_task_id(A2AClientError::TaskNotFound { task_id: Some("a".into()) }, "b");
    assert_eq!(e.message(), "Task not found: a");
    let e = attach_task_id(A2AClientError::TaskNotFound { task_id: None }, "b");
    assert_eq!(e.message(), "Task not found: b");
    let e = attach_task_id(A2AClientError::Connection("c".into()), "b");
    assert_eq!(e.message(), "A2A connection error: c");
}

#[test]
fn frames_are_unwrapped() {
    assert_eq!(
        unwrap_stream_envelope(j(r#"{"jsonrpc":"2.0","id":1,"result":{"task":{}}}"#)),
        j(r#"{"task":{}}"#)
    );
    assert_eq!(unwrap_stream_envelope(j(r#"{"result":1}"#)), j(r#"{"result":1}"#));
}

#[test]
fn a_stream_is_read_line_by_line_and_ends_with_its_task() {
    let mut reader = SseReader::new();
    assert!(reader.next().is_none());
    reader.feed(b": keep-alive\n\ndata: {\"jsonrpc\":\"2.0\",\"id\":1,\"resu");
    assert!(reader.next().is_none());
    reader.feed(b"lt\":{\"statusUpdate\":{\"status\":{\"state\":\"TASK_STATE_WORKING\"}}}}\r\n\n");
    match reader.next() {
        Some(StreamItem::Event(e)) => assert_eq!(
            e,
            j(r#"{"statusUpdate":{"status":{"state":"TASK_STATE_WORKING"}}}"#)
        ),
        other => panic!("{other:?}"),
    }
    assert!(reader.next().is_none());
    assert!(!reader.is_finished());
    reader.feed_text(
        "data: not json\ndata:{\"statusUpdate\":{\"status\":{\"state\":\"TASK_STATE_FAILED\"}}}\ndata: 1\n",
    );
    assert!(matches!(reader.next(), Some(StreamItem::Event(_))));
    assert!(reader.is_finished());
    assert!(reader.next().is_none());
}

#[test]
fn a_stream_ends_with_a_failure() {
    let mut reader = SseReader::new();
    reader.feed("data: {\"jsonrpc\":\"2.0\",\"error\":{\"code\":-32040,\"message\":\"no\"}}\n".as_bytes());
    match reader.next() {
        Some(StreamItem::Failure(A2AClientError::AccessDenied { message })) => {
            assert_eq!(message, "no")
        }
        other => panic!("{other:?}"),
    }
    assert!(reader.is_finished());
}

#[test]
fn broken_utf8_is_replaced() {
    let mut reader = SseReader::new();
    reader.feed(b"data: \"a\xffb\"\n");
    match reader.next() {
        Some(StreamItem::Event(Json::Str(s))) => assert_eq!(s, "a\u{fffd}b"),
        other => panic!("{other:?}"),
    }
}

#[test]
fn a_card_is_kept_for_its_time() {
    let mut f = AgentCardFetcher::with_ttl("http://a/", 1000);
    assert_eq!(f.url(), "http://a/.well-known/agent-card.json");
    assert!(f.cached(0).is_none());
    f.store(&j(r#"{"name":"x"}"#), 5000);
    assert_eq!(f.cached(5999), Some(j(r#"{"name":"x"}"#)));
    assert!(f.cached(6000).is_none());
    let mut never = AgentCardFetcher::with_ttl("http://a", 0);
    never.store(&Json::Null, 7);
    assert!(never.cached(7).is_none());
    let mut usual = AgentCardFetcher::new("http://a");
    usual.store(&Json::Null, 0);
    assert!(usual.cached(299_999).is_some());
    assert!(usual.cached(300_000).is_none());
}
