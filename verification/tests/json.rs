use upctl_svc::decode::{is_written_as_list, list_of_document, parse_json, parse_json_list};
use upctl_svc::json::Json;

fn object(entries: Vec<(&str, Json)>) -> Json {
    let mut j = Json::empty_object();
    for (key, value) in entries {
        j = j.with_field(key, value);
    }
    j
}

#[test]
fn every_kind_of_document_is_read() {
    assert_eq!(parse_json("null"), Some(Json::Null));
    assert_eq!(parse_json(" true "), Some(Json::Bool(true)));
    assert_eq!(parse_json("-12"), Some(Json::integer(-12)));
    assert_eq!(parse_json("\"\\u63d0\\n\""), Some(Json::text("提\n")));
    assert_eq!(
        parse_json("[1, \"a\", []]"),
        Some(Json::array(vec![Json::integer(1), Json::text("a"), Json::array(vec![])])),
    );
    assert_eq!(
        parse_json("{\"a\": {\"b\": null}}"),
        Some(object(vec![("a", object(vec![("b", Json::Null)]))])),
    );
}

#[test]
fn numbers_that_are_no_signed_integers_keep_their_printed_form() {
    assert_eq!(
        parse_json("18446744073709551615"),
        Some(Json::Number { value: None, text: "18446744073709551615".to_string() }),
    );
    assert_eq!(
        parse_json("1.50"),
        Some(Json::Number { value: None, text: "1.5".to_string() }),
    );
    assert_eq!(parse_json("1.0").unwrap().as_i64(), None);
    assert_eq!(parse_json("9223372036854775807").unwrap().as_i64(), Some(i64::MAX));
}

#[test]
fn what_is_not_json_is_refused() {
    for text in ["", "{", "[1,]", "{\"a\" 1}", "nul", "1 2", "'a'"] {
        assert_eq!(parse_json(text), None, "{}", text);
    }
}

#[test]
fn lists_are_those_that_serde_json_reads_as_lists() {
    for text in [
        "[]",
        " \n\t\r[1, {\"a\": null}]",
        "[[]] ",
        "[1,]",
        "[1] x",
        "[",
        "",
        "  ",
        "{}",
        "null",
        "\"[]\"",
        "\u{a0}[]",
        "\u{feff}[]",
        "{\"$serde_json::private::RawValue\": \"[]\"}",
        "{\"$serde_json::private::RawValue\": \"[1]\"}",
        "[{\"$serde_json::private::RawValue\": \"[1]\"}]",
    ] {
        let expected = serde_json::from_str::<Vec<serde_json::Value>>(text).ok();
        let list = parse_json_list(text);
        assert_eq!(list.as_ref().map(|l| l.len()), expected.map(|l| l.len()), "{}", text);
        assert_eq!(
            list.map(Json::array),
            parse_json(text).filter(|j| matches!(j, Json::Array(_)) && is_written_as_list(text)),
        );
    }
}

#[test]
fn an_object_writes_no_list() {
    let items = || Some(Json::array(vec![Json::integer(1)]));
    assert_eq!(list_of_document(" [1]", items()), Some(vec![Json::integer(1)]));
    assert_eq!(list_of_document("{}", items()), None);
    assert_eq!(list_of_document("[1]", Some(Json::Null)), None);
    assert_eq!(list_of_document("[1]", None), None);
    assert!(is_written_as_list("\n[x"));
    assert!(!is_written_as_list("{\"a\": []}"));
    assert!(!is_written_as_list("\u{a0}[]"));
    assert!(!is_written_as_list(""));
}

#[test]
fn the_later_of_two_equal_keys_counts() {
    let j = parse_json("{\"a\": 1, \"b\": 2, \"a\": 3}").unwrap();
    assert_eq!(j.get("a").unwrap().as_i64(), Some(3));
    assert_eq!(j.get("b").unwrap().as_i64(), Some(2));
    let j = Json::Object(vec![
        ("a".to_string(), Json::integer(1)),
        ("a".to_string(), Json::integer(3)),
    ]);
    assert_eq!(j.get("a").unwrap().as_i64(), Some(3));
    let j = j.with_field("a", Json::integer(4));
    assert_eq!(j.get("a").unwrap().as_i64(), Some(4));
}

#[test]
fn fields_are_found_in_objects_only() {
    let j = object(vec![("name", Json::text("bug")), ("id", Json::integer(3))]);
    assert_eq!(j.get("name").unwrap().as_str(), Some("bug"));
    assert_eq!(j.get("name").unwrap().as_i64(), None);
    assert_eq!(j.get("id").unwrap().as_i64(), Some(3));
    assert_eq!(j.get("id").unwrap().as_str(), None);
    assert_eq!(j.get("Name"), None);
    assert_eq!(Json::array(vec![]).get("name"), None);
    assert_eq!(Json::Null.get("name"), None);
}

#[test]
fn setting_a_field_keeps_the_others() {
    let j = object(vec![("a", Json::integer(1)), ("b", Json::integer(2))]);
    let j = j.with_field("a", Json::Null).with_field("c", Json::Bool(false));
    assert_eq!(
        j,
        object(vec![("a", Json::Null), ("b", Json::integer(2)), ("c", Json::Bool(false))]),
    );
    assert_eq!(Json::text("x").with_field("a", Json::Null), Json::text("x"));
}

#[test]
fn setting_an_inner_field_needs_an_inner_object() {
    let j = object(vec![("user", object(vec![("id", Json::integer(1))])), ("x", Json::Null)]);
    let j = j.with_inner_field("user", "login", Json::text("wang"));
    assert_eq!(j.get("user").unwrap().get("login").unwrap().as_str(), Some("wang"));
    assert_eq!(j.get("user").unwrap().get("id").unwrap().as_i64(), Some(1));
    assert_eq!(j.get("x"), Some(&Json::Null));
    let j = object(vec![("user", Json::Null)]).with_inner_field("user", "login", Json::Null);
    assert_eq!(j, object(vec![("user", Json::Null)]));
    let j = object(vec![]).with_inner_field("user", "login", Json::Null);
    assert_eq!(j, object(vec![]));
    assert_eq!(Json::Null.with_inner_field("user", "login", Json::Null), Json::Null);
}

#[test]
fn integers_become_a_list() {
    assert_eq!(
        Json::integers(&vec![5, -1]),
        Json::array(vec![Json::integer(5), Json::integer(-1)]),
    );
    assert_eq!(Json::integers(&vec![]), Json::array(vec![]));
    assert_eq!(
        Json::integer(-1),
        Json::Number { value: Some(-1), text: "-1".to_string() },
    );
}
