//! Parts of messages as module input, and module output as parts.

use apcore_a2a::adapters::parts::read_text_input;
use apcore_a2a::json::Json;
use apcore_a2a::types::Part;
use apcore_a2a::{PartConverter, SchemaConverter};

fn j(text: &str) -> Json {
    Json::parse(text).expect("valid JSON")
}

fn conv() -> PartConverter {
    PartConverter::new(SchemaConverter::new())
}

#[test]
fn convert_string_to_text_part() {
    assert_eq!(conv().convert_result(&j(r#""hi""#)), vec![Part::text("hi")]);
}

#[test]
fn convert_object_to_data_part() {
    let out = conv().convert_result(&j(r#"{"a":1}"#));
    assert_eq!(out, vec![Part::data(j(r#"{"a":1}"#))]);
}

#[test]
fn convert_array_to_text_part() {
    let out = conv().convert_result(&j("[1,2,3]"));
    assert_eq!(out, vec![Part::text("[1,2,3]")]);
}

#[test]
fn scalars_become_their_text_and_null_becomes_nothing() {
    assert_eq!(conv().convert_result(&j("true")), vec![Part::text("true")]);
    assert_eq!(conv().convert_result(&j("false")), vec![Part::text("false")]);
    assert_eq!(conv().convert_result(&j("-7")), vec![Part::text("-7")]);
    assert_eq!(
        conv().convert_result(&j("18446744073709551615")),
        vec![Part::text("18446744073709551615")]
    );
    assert_eq!(conv().convert_result(&j("1.50")), vec![Part::text("1.5")]);
    assert_eq!(conv().convert_result(&Json::Null), vec![]);
}

#[test]
fn nested_arrays_keep_the_order_of_members() {
    let out = conv().convert_result(&j(r#"[{"b":1,"a":[null,"x\n"]}]"#));
    assert_eq!(out, vec![Part::text(r#"[{"b":1,"a":[null,"x\n"]}]"#)]);
}

#[test]
fn data_part_to_input() {
    let parts = vec![Part::data(j(r#"{"x":1}"#))];
    assert_eq!(conv().parts_to_input(&parts, None).unwrap(), j(r#"{"x":1}"#));
}

#[test]
fn text_part_no_schema_is_raw_string() {
    let parts = vec![Part::text("hello")];
    assert_eq!(conv().parts_to_input(&parts, None).unwrap(), j(r#""hello""#));
}

#[test]
fn text_part_object_schema_parses_json() {
    let parts = vec![Part::text("{\"a\":1}")];
    let schema = j(r#"{"type":"object"}"#);
    assert_eq!(conv().parts_to_input(&parts, Some(&schema)).unwrap(), j(r#"{"a":1}"#));
}

#[test]
fn empty_and_file_parts_error() {
    assert!(conv().parts_to_input(&vec![], None).is_err());
    let file = vec![Part::FileUrl { url: "http://x".into() }];
    assert!(conv().parts_to_input(&file, None).is_err());
}

#[test]
fn refused_parts_are_told_why() {
    let fault = |parts: Vec<Part>| conv().parts_to_input(&parts, None).unwrap_err();
    assert_eq!(fault(vec![]), "Message must contain at least one Part");
    assert_eq!(
        fault(vec![Part::text("a"), Part::text("b")]),
        "Multiple parts are not supported; expected exactly one Part"
    );
    assert_eq!(fault(vec![Part::FileRaw { raw: "".into() }]), "FilePart is not supported");
    let schema = j(r#"{"properties":{}}"#);
    assert_eq!(
        conv().parts_to_input(&vec![Part::text("{")], Some(&schema)).unwrap_err(),
        "TextPart text is not valid JSON: EOF while parsing an object at line 1 column 1"
    );
}

#[test]
fn parsed_text_is_taken_or_refused() {
    assert_eq!(read_text_input(Ok(Json::Bool(true))).unwrap(), Json::Bool(true));
    assert_eq!(
        read_text_input(Err("why".into())).unwrap_err(),
        "TextPart text is not valid JSON: why"
    );
}

#[test]
fn an_artifact_is_named_after_its_task() {
    let a = conv().output_to_parts(&j(r#"{"k":1}"#), "t1");
    assert_eq!(a.artifact_id, "art-t1");
    assert_eq!(a.parts, vec![Part::data(j(r#"{"k":1}"#))]);
    assert!(a.name.is_none());
}
