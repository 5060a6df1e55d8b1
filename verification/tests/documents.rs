use hook_relay::json::{find_member, Json};
use hook_relay::text::is_blank;

fn text(value: &str) -> Json {
    Json::String(value.to_string())
}

fn number(value: u64) -> Json {
    Json::Number(serde_json::Number::from(value))
}

fn object(members: Vec<(&str, Json)>) -> Json {
    Json::Object(members.into_iter().map(|(key, value)| (key.to_string(), value)).collect())
}

#[test]
fn parse_reads_every_kind_of_value() {
    let parsed = Json::parse(
        "{\"s\": \"x\", \"n\": 7, \"t\": true, \"f\": false, \"z\": null, \"a\": [1, \"two\", []], \"o\": {\"k\": {}}}",
    )
    .unwrap();
    let expected = object(vec![
        ("a", Json::Array(vec![number(1), text("two"), Json::Array(vec![])])),
        ("f", Json::Bool(false)),
        ("n", number(7)),
        ("o", object(vec![("k", object(vec![]))])),
        ("s", text("x")),
        ("t", Json::Bool(true)),
        ("z", Json::Null),
    ]);
    assert_eq!(parsed, expected);
}

#[test]
fn parse_keeps_numbers_as_they_are() {
    let parsed = Json::parse("[0, -3, 18446744073709551615, 2.5, 1e3]").unwrap();
    let expected = Json::Array(vec![
        Json::Number(serde_json::Number::from(0u64)),
        Json::Number(serde_json::Number::from(-3i64)),
        Json::Number(serde_json::Number::from(u64::MAX)),
        Json::Number(serde_json::Number::from_f64(2.5).unwrap()),
        Json::Number(serde_json::Number::from_f64(1000.0).unwrap()),
    ]);
    assert_eq!(parsed, expected);
    assert_eq!(parsed.to_pretty().unwrap(), "[\n  0,\n  -3,\n  18446744073709551615,\n  2.5,\n  1000.0\n]");
}

#[test]
fn parse_refuses_what_is_not_json() {
    for broken in ["", " ", "not json", "{", "[1,", "{\"a\": 1} x", "{'a': 1}", "01"] {
        let error = Json::parse(broken).unwrap_err();
        assert!(!error.is_empty());
        assert!(Json::parse_bytes(broken.as_bytes()).is_err());
    }
    assert_eq!(Json::parse("nul").unwrap_err(), "EOF while parsing a value at line 1 column 3");
    assert_eq!(
        Json::parse("{\"a\": tru }").unwrap_err(),
        serde_json::from_str::<serde_json::Value>("{\"a\": tru }").unwrap_err().to_string()
    );
}

#[test]
fn parse_bytes_reads_what_parse_reads() {
    let source = "{\"tool\": \"bash\", \"args\": [1, 2]}";
    assert_eq!(Json::parse_bytes(source.as_bytes()), Json::parse(source));
    assert!(Json::parse_bytes(&[0xff, 0xfe]).is_err());
    assert!(Json::parse_bytes(b"\"\xff\"").is_err());
}

#[test]
fn to_pretty_indents_by_two_spaces() {
    let document = object(vec![
        ("name", text("pet")),
        ("list", Json::Array(vec![number(1), Json::Null])),
        ("empty", object(vec![])),
    ]);
    assert_eq!(
        document.to_pretty().unwrap(),
        "{\n  \"empty\": {},\n  \"list\": [\n    1,\n    null\n  ],\n  \"name\": \"pet\"\n}"
    );
    assert_eq!(Json::Null.to_pretty().unwrap(), "null");
    assert_eq!(text("a\"b\n").to_pretty().unwrap(), "\"a\\\"b\\n\"");
}

#[test]
fn to_pretty_writes_the_last_member_under_a_key() {
    let document = object(vec![("k", number(1)), ("k", number(2))]);
    assert_eq!(document.to_pretty().unwrap(), "{\n  \"k\": 2\n}");
}

#[test]
fn what_is_written_reads_back() {
    let source = "{\"b\": [true, {\"c\": \"d\"}], \"a\": -1.5}";
    let first = Json::parse(source).unwrap();
    let written = first.to_pretty().unwrap();
    assert_eq!(Json::parse(&written).unwrap(), first);
}

#[test]
fn get_finds_the_last_member_under_a_key() {
    let document = object(vec![("a", number(1)), ("b", number(2)), ("a", number(3))]);
    assert_eq!(document.get("a"), Some(&number(3)));
    assert_eq!(document.get("b"), Some(&number(2)));
    assert_eq!(document.get("c"), None);
    assert_eq!(document.get(""), None);
    assert_eq!(Json::Array(vec![number(1)]).get("0"), None);
    assert_eq!(text("a").get("a"), None);
    assert_eq!(Json::Null.get("a"), None);
}

#[test]
fn find_member_gives_the_last_index() {
    let members = vec![
        ("a".to_string(), Json::Null),
        ("b".to_string(), Json::Null),
        ("a".to_string(), Json::Null),
    ];
    assert_eq!(find_member(&members, &"a".to_string()), Some(2));
    assert_eq!(find_member(&members, &"b".to_string()), Some(1));
    assert_eq!(find_member(&members, &"c".to_string()), None);
    assert_eq!(find_member(&vec![], &"a".to_string()), None);
}

#[test]
fn clone_copies_the_whole_tree() {
    let document = Json::parse("{\"a\": [1, 2.5, {\"b\": [null, \"x\", false]}], \"c\": {}}").unwrap();
    let copy = document.clone();
    assert_eq!(copy, document);
    assert_eq!(copy.to_pretty(), document.to_pretty());
}

#[test]
fn is_blank_holds_of_white_space_only() {
    assert!(is_blank(""));
    assert!(is_blank(" "));
    assert!(is_blank("\t\r\n \u{b}\u{c}"));
    assert!(is_blank("\u{85}\u{a0}\u{1680}\u{2000}\u{2028}\u{2029}\u{202f}\u{205f}\u{3000}"));
    assert!(!is_blank("x"));
    assert!(!is_blank("  {}  "));
    assert!(!is_blank(" \u{200b} "));
    assert!(!is_blank("\n\n."));
}
