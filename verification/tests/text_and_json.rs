use sdi_desktop::json::{parse_json, Json};
use sdi_desktop::text::{chars_of, is_white_space, same_text, string_of};

#[test]
fn white_space_is_that_of_unicode() {
    for c in '\0'..=char::MAX {
        assert_eq!(is_white_space(c), c.is_whitespace(), "{c:?}");
    }
}

#[test]
fn texts_are_cut_by_characters() {
    let chars = chars_of("aé🔴b");
    assert_eq!(chars, vec!['a', 'é', '🔴', 'b']);
    assert_eq!(string_of(&chars, 1, 3), "é🔴");
    assert_eq!(string_of(&chars, 2, 2), "");
}

#[test]
fn texts_are_the_same_by_their_characters() {
    assert!(same_text("", ""));
    assert!(same_text("aé", "aé"));
    assert!(!same_text("a", "ab"));
    assert!(!same_text("a", "A"));
}

#[test]
fn json_is_read_layer_by_layer() {
    let document = parse_json(r#"{"b":[1,-1,1.5,18446744073709551615],"a":{"t":"xé"},"c":null,"d":true}"#)
        .unwrap();
    let text = |s: &str| s.to_string();
    assert_eq!(
        document,
        Json::Object(vec![
            (text("a"), Json::Object(vec![(text("t"), Json::Text(text("xé")))])),
            (
                text("b"),
                Json::Array(vec![
                    Json::Number(Some(1)),
                    Json::Number(None),
                    Json::Number(None),
                    Json::Number(Some(u64::MAX)),
                ])
            ),
            (text("c"), Json::Null),
            (text("d"), Json::Bool(true)),
        ])
    );
}

#[test]
fn json_is_looked_into() {
    let document = parse_json(r#"{"n":7,"t":"x","list":["y"],"n2":{}}"#).unwrap();
    assert_eq!(document.get("n").and_then(|v| v.as_u64()), Some(7));
    assert_eq!(document.text_field("t"), Some("x"));
    assert_eq!(document.text_field("n"), None);
    assert!(document.get("missing").is_none());
    assert_eq!(document.get("list").and_then(|v| v.as_array()).map(|l| l.len()), Some(1));
    assert!(document.as_str().is_none());
    assert!(document.as_array().is_none());
    assert_eq!(document.first_array().map(|l| l.len()), Some(1));
    assert!(Json::Null.get("n").is_none());
    assert!(Json::Array(vec![]).first_array().is_some());
    assert!(Json::Object(vec![]).first_array().is_none());
}

#[test]
fn later_field_of_the_same_key_counts() {
    let document = parse_json(r#"{"k":"one","k":"two"}"#).unwrap();
    assert_eq!(document.text_field("k"), Some("two"));
}

#[test]
fn json_errors_carry_the_message_of_the_parser() {
    for text in ["", "{", "nul", "[1,]", "{\"a\":1} x"] {
        let wanted = serde_json::from_str::<serde_json::Value>(text).unwrap_err();
        assert_eq!(parse_json(text).unwrap_err(), wanted.to_string());
    }
}
