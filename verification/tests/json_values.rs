use serde_json::Value;
use toolmind::codec::{compact, from_value, parse, pretty, to_value};
use toolmind::json::{object, text, text_items, Json};

const DOCUMENTS: [&str; 8] = [
    "null",
    "true",
    "[1,-2,18446744073709551615,-9223372036854775808,2.5]",
    "\"olá \\\"mundo\\\" \\n\"",
    "{}",
    "{\"a\":{\"b\":[{\"c\":null}]},\"z\":[]}",
    "[[],[[]],{\"k\":\"v\"}]",
    "{\"tool\":\"x\",\"input\":{\"n\":1e300}}",
];

#[test]
fn values_go_to_serde_json_and_back() {
    for d in DOCUMENTS {
        let v: Value = serde_json::from_str(d).unwrap();
        assert_eq!(to_value(&from_value(v.clone())), v);
        assert_eq!(to_value(&parse(d).unwrap()), v);
        assert_eq!(to_value(&parse(d).unwrap().copy()), v);
        assert_eq!(compact(&parse(d).unwrap()), serde_json::to_string(&v).unwrap());
        assert_eq!(pretty(&parse(d).unwrap()), serde_json::to_string_pretty(&v).unwrap());
    }
}

#[test]
fn a_stored_value_is_read_again() {
    for d in DOCUMENTS {
        let j = parse(d).unwrap();
        assert_eq!(to_value(&parse(&pretty(&j)).unwrap()), to_value(&j));
        assert_eq!(to_value(&parse(&compact(&j)).unwrap()), to_value(&j));
    }
}

#[test]
fn a_text_that_is_no_json_gives_the_message_of_its_error() {
    for bad in ["", "{", "nulll", "{\"a\":}"] {
        let expected = serde_json::from_str::<Value>(bad).unwrap_err().to_string();
        match parse(bad) {
            Ok(_) => panic!("{bad:?} was read"),
            Err(e) => assert_eq!(e, expected),
        }
    }
    let deep = format!("{}{}", "[".repeat(128), "]".repeat(128));
    assert!(parse(&deep).is_err());
    let less = format!("{}{}", "[".repeat(127), "]".repeat(127));
    assert!(parse(&less).is_ok());
}

#[test]
fn fields_are_read_by_their_kind() {
    let j = parse(
        r#"{"s":"x","e":"","u":7,"n":-7,"f":2.5,"b":true,"l":["a",1,"b",null],"big":18446744073709551615}"#,
    )
    .unwrap();
    assert_eq!(j.text_at("s"), Some("x"));
    assert_eq!(j.text_at("u"), None);
    assert_eq!(j.text_at("missing"), None);
    assert_eq!(j.text_or("missing", "d"), "d");
    assert_eq!(j.filled_at("e"), None);
    assert_eq!(j.filled_at("s"), Some("x"));
    assert_eq!(j.uint_at("u"), Some(7));
    assert_eq!(j.uint_at("n"), None);
    assert_eq!(j.uint_at("f"), None);
    assert_eq!(j.uint_at("big"), Some(u64::MAX));
    assert_eq!(j.get("n").unwrap().as_sint(), Some(-7));
    assert_eq!(j.get("u").unwrap().as_sint(), Some(7));
    assert_eq!(j.get("big").unwrap().as_sint(), None);
    assert_eq!(j.get("f").unwrap().as_sint(), None);
    assert_eq!(j.uint_clamped("u", 1, 10, 20), 10);
    assert_eq!(j.uint_clamped("big", 1, 10, 20), 20);
    assert_eq!(j.uint_clamped("missing", 15, 10, 20), 15);
    assert_eq!(j.bool_or("b", false), true);
    assert_eq!(j.bool_or("s", true), true);
    assert_eq!(j.texts_at("l"), ["a", "b"]);
    assert_eq!(j.texts_at("s"), Vec::<String>::new());
    assert_eq!(j.list_at("l").unwrap().len(), 4);
    assert!(j.list_at("s").is_none());
    assert!(parse("[1]").unwrap().get("s").is_none());
    assert!(matches!(j.at("missing"), Json::Null));
    assert_eq!(parse("\"t\"").unwrap().as_text(), Some("t"));
    assert_eq!(parse("[1,2]").unwrap().as_list().unwrap().len(), 2);
    assert_eq!(parse("3").unwrap().as_uint(), Some(3));
    assert_eq!(parse("false").unwrap().as_bool(), Some(false));
}

#[test]
fn a_later_field_replaces_an_earlier_one() {
    let j = object().with("a", Json::Uint(1)).with("b", text("x")).with("a", Json::Sint(-2));
    assert_eq!(compact(&j), r#"{"a":-2,"b":"x"}"#);
    assert_eq!(j.get("a").unwrap().as_sint(), Some(-2));
    let twice = parse(r#"{"a":1,"a":2}"#).unwrap();
    assert_eq!(twice.uint_at("a"), Some(2));
    assert_eq!(compact(&text("a").with("b", Json::Null)), "\"a\"");
    assert_eq!(compact(&text_items(&["p".to_string(), "q".to_string()])), r#"["p","q"]"#);
}
