//! The wire form of the protocol types.

use apcore_a2a::json::Json;
use apcore_a2a::types::{
    now_iso8601, Artifact, Message, Part, Role, StreamEvent, Task, TaskArtifactUpdateEvent,
    TaskState, TaskStatus, TaskStatusUpdateEvent,
};

fn j(text: &str) -> Json {
    Json::parse(text).expect("valid JSON")
}

fn field<'a>(v: &'a Json, path: &[&str]) -> &'a Json {
    path.iter().fold(v, |v, k| v.get(k).expect("member"))
}

#[test]
fn part_text_serializes_flat_without_type() {
    assert_eq!(Part::text("hi").to_json(), j(r#"{"text":"hi"}"#));
}

#[test]
fn part_data_serializes_flat() {
    assert_eq!(Part::data(j(r#"{"a":1}"#)).to_json(), j(r#"{"data":{"a":1}}"#));
}

#[test]
fn part_deserializes_from_oneof_wire() {
    assert_eq!(Part::from_json(&j(r#"{"text":"x"}"#)).unwrap(), Part::text("x"));
    assert_eq!(
        Part::from_json(&j(r#"{"data":{"k":true}}"#)).unwrap(),
        Part::data(j(r#"{"k":true}"#))
    );
}

#[test]
fn task_state_serializes_full_enum_name() {
    assert_eq!(TaskState::Completed.name(), "TASK_STATE_COMPLETED");
    assert_eq!(TaskState::Submitted.name(), "TASK_STATE_SUBMITTED");
    assert_eq!(
        field(&TaskStatus::new(TaskState::Completed).to_json(), &["state"]),
        &j(r#""TASK_STATE_COMPLETED""#)
    );
}

#[test]
fn role_serializes_enum_name() {
    assert_eq!(Role::User.name(), "ROLE_USER");
    assert_eq!(Role::Agent.name(), "ROLE_AGENT");
    assert_eq!(
        field(&Message::agent_text("x").to_json(), &["role"]),
        &j(r#""ROLE_AGENT""#)
    );
}

#[test]
fn terminal_states() {
    assert!(TaskState::Completed.is_terminal());
    assert!(TaskState::Failed.is_terminal());
    assert!(TaskState::Canceled.is_terminal());
    assert!(!TaskState::Working.is_terminal());
    assert!(!TaskState::Submitted.is_terminal());
}

#[test]
fn a_rejected_task_has_ended_and_one_that_waits_has_not() {
    assert!(TaskState::Rejected.is_terminal());
    assert!(!TaskState::InputRequired.is_terminal());
}

#[test]
fn stream_event_uses_oneof_wrapper_key() {
    let ev = StreamEvent::StatusUpdate(TaskStatusUpdateEvent {
        task_id: "t1".into(),
        context_id: "c1".into(),
        status: TaskStatus::new(TaskState::Working),
    });
    let v = ev.to_json();
    assert!(v.get("statusUpdate").is_some());
    assert_eq!(
        field(&v, &["statusUpdate", "status", "state"]),
        &j(r#""TASK_STATE_WORKING""#)
    );
    assert!(field(&v, &["statusUpdate"]).get("final").is_none());

    let art = StreamEvent::ArtifactUpdate(TaskArtifactUpdateEvent {
        task_id: "t1".into(),
        context_id: "c1".into(),
        artifact: Artifact::new("art-1", vec![Part::text("x")]),
        append: false,
        last_chunk: true,
    });
    let av = art.to_json();
    assert!(av.get("artifactUpdate").is_some());
    assert_eq!(field(&av, &["artifactUpdate", "lastChunk"]), &Json::Bool(true));
}

#[test]
fn a_task_event_is_wrapped_too() {
    let t = Task {
        id: "t".into(),
        context_id: "c".into(),
        status: TaskStatus { state: TaskState::Working, message: None, timestamp: None },
        artifacts: vec![],
        history: vec![],
    };
    assert_eq!(
        StreamEvent::Task(t).to_json(),
        j(r#"{"task":{"id":"t","contextId":"c","status":{"state":"TASK_STATE_WORKING"},"artifacts":[],"history":[]}}"#)
    );
}

#[test]
fn time_stamps_are_utc_to_the_millisecond() {
    let t = now_iso8601();
    assert!(t.ends_with('Z'), "{t}");
    assert_eq!(t.len(), "2026-01-01T00:00:00.000Z".len());
    for (i, c) in t.chars().enumerate() {
        match i {
            4 | 7 => assert_eq!(c, '-', "{t}"),
            10 => assert_eq!(c, 'T', "{t}"),
            13 | 16 => assert_eq!(c, ':', "{t}"),
            19 => assert_eq!(c, '.', "{t}"),
            23 => assert_eq!(c, 'Z', "{t}"),
            _ => assert!(c.is_ascii_digit(), "{t}"),
        }
    }
}

#[test]
fn message_ids_are_fresh() {
    let a = Message::agent_text("x");
    let b = Message::agent_text("x");
    assert_ne!(a.message_id, b.message_id);
    assert_eq!(a.message_id.len(), 36);
    assert_eq!(&a.message_id[14..15], "4");
    assert!("89ab".contains(&a.message_id[19..20]));
    assert_eq!(a.message_id.len(), 36);
}

#[test]
fn a_written_task_is_read_back() {
    let t = Task {
        id: "t".into(),
        context_id: "c".into(),
        status: TaskStatus::with_message(TaskState::Failed, Message::agent_text("why")),
        artifacts: vec![Artifact::new(
            "a",
            vec![
                Part::text("x"),
                Part::data(j("[1]")),
                Part::FileUrl { url: "http://u".into() },
                Part::FileRaw { raw: "AA==".into() },
            ],
        )],
        history: vec![Message {
            message_id: "m".into(),
            role: Role::User,
            parts: vec![],
            context_id: Some("c".into()),
            task_id: None,
            metadata: Some(j(r#"{"k":1}"#)),
        }],
    };
    let written = t.to_json();
    let read = Task::from_json(&written).unwrap();
    assert_eq!(read.to_json(), written);
    assert_eq!(read.status.state, TaskState::Failed);
    assert_eq!(read.artifacts[0].parts.len(), 4);
}

#[test]
fn null_metadata_reads_as_none() {
    let m = Message::from_json(&j(
        r#"{"messageId":"m","role":"ROLE_USER","parts":[],"metadata":null,"contextId":null}"#,
    ))
    .unwrap();
    assert!(m.metadata.is_none());
    assert!(m.context_id.is_none());
}

#[test]
fn short_role_names_are_read() {
    for (name, role) in [("user", Role::User), ("agent", Role::Agent), ("ROLE_UNSPECIFIED", Role::Unspecified)] {
        let text = format!(r#"{{"messageId":"m","role":"{name}","parts":[]}}"#);
        assert_eq!(Message::from_json(&j(&text)).unwrap().role, role);
    }
    let by_key = j(r#"{"messageId":"m","role":{"ROLE_USER":null},"parts":[]}"#);
    assert_eq!(Message::from_json(&by_key).unwrap().role, Role::User);
}

#[test]
fn a_structure_may_come_as_an_array_of_its_fields() {
    let m = Message::from_json(&j(r#"["m","ROLE_USER",[{"text":"x"}],"ctx"]"#)).unwrap();
    assert_eq!(m.message_id, "m");
    assert_eq!(m.context_id.as_deref(), Some("ctx"));
    assert_eq!(m.parts, vec![Part::text("x")]);
}

#[test]
fn what_is_wrong_with_a_message_is_named() {
    let fault = |text: &str| Message::from_json(&j(text)).unwrap_err();
    assert_eq!(fault("5"), "invalid type: integer `5`, expected struct Message");
    assert_eq!(fault("-5"), "invalid type: integer `-5`, expected struct Message");
    assert_eq!(fault("1.5"), "invalid type: floating point `1.5`, expected struct Message");
    assert_eq!(fault("null"), "invalid type: null, expected struct Message");
    assert_eq!(fault("true"), "invalid type: boolean `true`, expected struct Message");
    assert_eq!(fault(r#""a\"b""#), r#"invalid type: string "a\"b", expected struct Message"#);
    assert_eq!(fault("{}"), "missing field `messageId`");
    assert_eq!(fault(r#"{"messageId":"m"}"#), "missing field `role`");
    assert_eq!(
        fault(r#"{"messageId":"m","role":"wizard","parts":[]}"#),
        "unknown variant `wizard`, expected one of `ROLE_UNSPECIFIED`, `ROLE_USER`, `ROLE_AGENT`"
    );
    assert_eq!(
        fault(r#"{"messageId":"m","role":[],"parts":[]}"#),
        "invalid type: sequence, expected string or map"
    );
    assert_eq!(
        fault(r#"{"messageId":"m","role":{},"parts":[]}"#),
        "invalid value: map, expected map with a single key"
    );
    assert_eq!(
        fault(r#"{"messageId":"m","role":{"ROLE_USER":1},"parts":[]}"#),
        "invalid type: integer `1`, expected unit"
    );
    assert_eq!(
        fault(r#"{"messageId":7,"role":"ROLE_USER","parts":[]}"#),
        "invalid type: integer `7`, expected a string"
    );
    assert_eq!(
        fault(r#"{"messageId":"m","role":"ROLE_USER","parts":{}}"#),
        "invalid type: map, expected a sequence"
    );
    assert_eq!(
        fault(r#"{"messageId":"m","role":"ROLE_USER","parts":[{"kind":1}]}"#),
        "data did not match any variant of untagged enum Part"
    );
    assert_eq!(
        fault(r#"["m"]"#),
        "invalid length 1, expected struct Message with 6 elements"
    );
    assert_eq!(
        fault(r#"["m","ROLE_USER",[],null,null,null,1]"#),
        "invalid length 7, expected fewer elements in array"
    );
}

#[test]
fn what_is_wrong_with_a_task_is_named() {
    let fault = |text: &str| Task::from_json(&j(text)).unwrap_err();
    assert_eq!(fault(r#"{"id":"t","contextId":"c"}"#), "missing field `status`");
    assert_eq!(
        fault(r#"{"id":"t","contextId":"c","status":{"state":"DONE"}}"#),
        "unknown variant `DONE`, expected one of `TASK_STATE_SUBMITTED`, `TASK_STATE_WORKING`, `TASK_STATE_COMPLETED`, `TASK_STATE_FAILED`, `TASK_STATE_CANCELED`, `TASK_STATE_INPUT_REQUIRED`, `TASK_STATE_REJECTED`"
    );
    assert_eq!(
        fault(r#"{"id":"t","contextId":"c","status":{"state":"TASK_STATE_WORKING"},"artifacts":null}"#),
        "invalid type: null, expected a sequence"
    );
    assert_eq!(
        fault(r#"{"id":"t","contextId":"c","status":{"state":"TASK_STATE_WORKING"},"artifacts":[{}]}"#),
        "missing field `artifactId`"
    );
    assert_eq!(
        fault(r#"{"id":"t","contextId":"c","status":{"message":{}}}"#),
        "missing field `messageId`"
    );
    assert!(Task::from_json(&j(
        r#"{"id":"t","contextId":"c","status":{"state":"TASK_STATE_WORKING","extra":1},"other":2}"#
    ))
    .is_ok());
}

#[test]
fn the_first_usable_content_of_a_part_counts() {
    assert_eq!(
        Part::from_json(&j(r#"{"data":null,"text":"t"}"#)).unwrap(),
        Part::text("t")
    );
    assert_eq!(
        Part::from_json(&j(r#"{"text":5,"data":null}"#)).unwrap(),
        Part::data(Json::Null)
    );
    assert_eq!(
        Part::from_json(&j(r#"{"url":"u","raw":"r"}"#)).unwrap(),
        Part::FileUrl { url: "u".into() }
    );
    assert_eq!(
        Part::from_json(&j(r#"{"raw":"r"}"#)).unwrap(),
        Part::FileRaw { raw: "r".into() }
    );
    assert!(Part::from_json(&j(r#"["t"]"#)).is_err());
}
