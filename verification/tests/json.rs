//! JSON values, their text, and the text functions under them.

use apcore_a2a::json::{array, find, insert, integer, object, put, remove, string, unsigned, Json, JsonNumber};
use apcore_a2a::text::{
    chars_of, contains_str, decimal, join, slice, starts_with, string_of, trim,
};
use apcore_a2a::wire::signed_decimal;

fn j(text: &str) -> Json {
    Json::parse(text).expect("valid JSON")
}

fn members(text: &str) -> Vec<(String, Json)> {
    match j(text) {
        Json::Object(m) => m,
        other => panic!("{other:?}"),
    }
}

#[test]
fn members_are_found_replaced_and_removed() {
    let mut m = members(r#"{"a":1,"b":2,"c":3}"#);
    assert_eq!(find(&m, "b"), Some(1));
    assert_eq!(find(&m, "x"), None);
    insert(&mut m, "b", j("20"));
    insert(&mut m, "d", j("4"));
    assert_eq!(object(m.clone()), j(r#"{"a":1,"b":20,"c":3,"d":4}"#));
    remove(&mut m, "a");
    assert_eq!(object(m.clone()).to_text(), r#"{"d":4,"b":20,"c":3}"#);
    remove(&mut m, "x");
    assert_eq!(m.len(), 3);
    assert!(object(m).get("a").is_none());
}

#[test]
fn values_are_built_and_read() {
    let mut m = vec![];
    put(&mut m, "s", string("x"));
    put(&mut m, "n", unsigned(7));
    put(&mut m, "i", integer(-7));
    put(&mut m, "l", array(vec![Json::Null, Json::Bool(true)]));
    let v = object(m);
    assert_eq!(v, j(r#"{"s":"x","n":7,"i":-7,"l":[null,true]}"#));
    assert_eq!(v.get_str("s"), Some("x"));
    assert_eq!(v.get_str("n"), None);
    assert_eq!(v.get("s").and_then(|s| s.as_str()), Some("x"));
    assert!(v.get("missing").is_none());
    assert!(Json::Null.is_null() && !v.is_null());
    assert!(Json::Null.get("s").is_none());
    assert_eq!(integer(7), unsigned(7));
    assert_eq!(v.copy(), v);
}

#[test]
fn numbers_keep_their_kind() {
    assert_eq!(j("18446744073709551615"), Json::Number(JsonNumber::PosInt(u64::MAX)));
    assert_eq!(j("-9223372036854775808"), Json::Number(JsonNumber::NegInt(i64::MIN)));
    assert_eq!(j("1.5"), Json::Number(JsonNumber::Float("1.5".into())));
    assert_eq!(j("1e2"), Json::Number(JsonNumber::Float("100.0".into())));
}

#[test]
fn a_text_reads_back_as_it_was_written() {
    for text in [
        r#"{"z":1,"a":[null,true,false,"q\"\\\n\u0001é"],"m":{"k":-3}}"#,
        "[]",
        "\"\"",
        "-1",
    ] {
        let v = j(text);
        let written = v.to_text();
        assert!(!written.contains('\n'));
        assert_eq!(j(&written), v);
    }
    assert_eq!(j(r#"{ "b" : 1 , "a" : [ 2 ] }"#).to_text(), r#"{"b":1,"a":[2]}"#);
}

#[test]
fn an_object_that_marks_raw_text_reads_as_that_text() {
    let mark = "$serde_json::private::RawValue";
    let marked = |v: Json| object(vec![(mark.to_string(), v)]);
    assert!(Json::parse(&marked(unsigned(1)).to_text()).is_err());
    assert_eq!(j(&marked(string("[1]")).to_text()), j("[1]"));
    let deep = array(vec![marked(string("null"))]);
    assert_eq!(j(&deep.to_text()), array(vec![Json::Null]));
    let second = object(vec![("a".to_string(), Json::Null), (mark.to_string(), unsigned(1))]);
    assert_eq!(j(&second.to_text()), second);
}

#[test]
fn what_is_no_json_is_told() {
    assert_eq!(
        Json::parse("{not json").unwrap_err(),
        "key must be a string at line 1 column 2"
    );
    assert_eq!(Json::parse("").unwrap_err(), "EOF while parsing a value at line 1 column 0");
    let deep = "[".repeat(200) + &"]".repeat(200);
    assert!(Json::parse(&deep).is_err());
    let fits = "[".repeat(127) + &"]".repeat(127);
    assert_eq!(j(&fits).to_text(), fits);
    let one_more = "[".repeat(128) + &"]".repeat(128);
    assert!(Json::parse(&one_more).is_err());
}

#[test]
fn of_two_members_with_one_name_the_later_counts() {
    assert_eq!(j(r#"{"a":1,"a":2}"#), j(r#"{"a":2}"#));
}

#[test]
fn strings_by_their_characters() {
    assert_eq!(trim(" \u{2003}a b\n"), "a b");
    assert_eq!(trim(" \t"), "");
    assert_eq!(join("a", "é"), "aé");
    assert!(starts_with("system.x", "system.") && !starts_with("sys", "system."));
    assert!(contains_str(&vec!["a".to_string()], "a") && !contains_str(&vec![], "a"));
    let cs = chars_of("héé");
    assert_eq!(slice(&cs, 1, 2), "é");
    assert_eq!(string_of(&cs), "héé");
    assert_eq!(decimal(0), "0");
    assert_eq!(decimal(u64::MAX), "18446744073709551615");
    assert_eq!(signed_decimal(-10), "-10");
    assert_eq!(signed_decimal(i64::MIN), "-9223372036854775808");
}
