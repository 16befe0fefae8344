//! Schemas of modules.

use apcore_a2a::adapters::schema::finish_schema;
use apcore_a2a::json::Json;
use apcore_a2a::SchemaConverter;

fn j(text: &str) -> Json {
    Json::parse(text).expect("valid JSON")
}

#[test]
fn empty_schema_becomes_object() {
    let out = SchemaConverter::new().convert_input_schema(&j("{}"));
    assert_eq!(out, j(r#"{"type":"object","properties":{}}"#));
}

#[test]
fn refs_inlined_and_defs_stripped() {
    let schema = j(
        r##"{"type":"object","properties":{"item":{"$ref":"#/$defs/Item"}},"$defs":{"Item":{"type":"string"}}}"##,
    );
    let out = SchemaConverter::new().convert_input_schema(&schema);
    assert!(out.get("$defs").is_none());
    assert_eq!(
        out.get("properties").and_then(|p| p.get("item")),
        Some(&j(r#"{"type":"string"}"#))
    );
}

#[test]
fn detect_root_type() {
    let c = SchemaConverter::new();
    assert_eq!(c.detect_root_type(Some(&j(r#"{"type":"string"}"#))), "string");
    assert_eq!(c.detect_root_type(Some(&j(r#"{"type":"object"}"#))), "object");
    assert_eq!(c.detect_root_type(Some(&j(r#"{"properties":{}}"#))), "object");
    assert_eq!(c.detect_root_type(None), "unknown");
}

#[test]
fn other_roots_are_unknown() {
    let c = SchemaConverter::new();
    assert_eq!(c.detect_root_type(Some(&j(r#"{"type":"array"}"#))), "unknown");
    assert_eq!(c.detect_root_type(Some(&j(r#"{"type":"array","properties":{}}"#))), "object");
    assert_eq!(c.detect_root_type(Some(&j("[]"))), "unknown");
}

#[test]
fn a_type_is_added_or_corrected() {
    let c = SchemaConverter::new();
    assert_eq!(
        c.convert_output_schema(&j(r#"{"description":"d"}"#)),
        j(r#"{"description":"d","type":"object"}"#)
    );
    assert_eq!(
        c.convert_output_schema(&j(r#"{"type":"array","properties":{}}"#)),
        j(r#"{"type":"object","properties":{}}"#)
    );
    assert_eq!(
        c.convert_output_schema(&j(r#"{"type":"string"}"#)),
        j(r#"{"type":"string"}"#)
    );
    assert_eq!(
        c.convert_output_schema(&j("null")),
        j(r#"{"type":"object","properties":{}}"#)
    );
}

#[test]
fn definitions_are_dropped_once_resolved() {
    assert_eq!(
        finish_schema(j(r#"{"$defs":{},"a":1,"b":2}"#)),
        j(r#"{"b":2,"a":1,"type":"object"}"#)
    );
    assert_eq!(finish_schema(j("3")), j(r#"{"type":"object","properties":{}}"#));
}

#[test]
fn converting_again_changes_nothing() {
    let c = SchemaConverter::new();
    for text in [
        "{}",
        "7",
        "[]",
        r#"{"type":"string"}"#,
        r#"{"type":["object","null"],"properties":{"a":{}}}"#,
        r#"{"properties":{"a":{"type":"integer"}},"title":"T"}"#,
        r##"{"properties":{"i":{"$ref":"#/$defs/I"}},"$defs":{"I":{"$ref":"#/$defs/K"},"K":{"type":"null"}}}"##,
        r##"{"$defs":{"I":{}},"$ref":"#/$defs/I"}"##,
    ] {
        let once = c.convert_input_schema(&j(text));
        assert_eq!(c.convert_input_schema(&once), once, "{text}");
        assert_eq!(c.convert_output_schema(&j(text)), once, "{text}");
        assert!(once.get("type").is_some() && once.get("$defs").is_none(), "{text}");
        if once.get("properties").is_some() {
            assert_eq!(once.get_str("type"), Some("object"), "{text}");
        }
    }
}
