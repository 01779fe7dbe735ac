use jcode_app_core::json::{parse_json, JsonValue};
use jcode_app_core::text::{chars_of, is_white_space, join, number_text, same_text, string_of, trim};

#[test]
fn white_space_is_what_the_standard_library_says() {
    for code in 0..=0x10FFFFu32 {
        if let Some(c) = char::from_u32(code) {
            assert_eq!(is_white_space(c), c.is_whitespace());
        }
    }
}

#[test]
fn trim_agrees_with_the_standard_library() {
    for s in ["", " ", "a", " a ", "\t\n a b\u{3000}", "\u{a0}é", "a\u{200b}"] {
        assert_eq!(trim(s), s.trim());
        assert_eq!(trim(&trim(s)), trim(s));
    }
}

#[test]
fn numbers_are_written_as_the_standard_library_does() {
    for n in [0u64, 1, 9, 10, 15, 16, 255, 256, 4096, 65535, 123456789, u64::MAX] {
        assert_eq!(number_text(n, 10), n.to_string());
        assert_eq!(number_text(n, 16), format!("{:x}", n));
    }
}

#[test]
fn texts_are_joined_compared_and_taken_apart() {
    let parts = vec!["a".to_string(), "".to_string(), "bc".to_string()];
    assert_eq!(join(&parts, ", "), "a, , bc");
    assert_eq!(join(&vec![], ", "), "");
    assert_eq!(join(&vec!["x".to_string()], ", "), "x");
    assert!(same_text("né", "né"));
    assert!(!same_text("ab", "abc"));
    assert!(!same_text("ab", "ac"));
    assert_eq!(chars_of("aé日"), vec!['a', 'é', '日']);
    assert_eq!(string_of(&['a', 'é', '日']), "aé日");
}

#[test]
fn members_are_found_by_name() {
    let value = JsonValue::Object(vec![
        ("a".to_string(), JsonValue::Text("x".to_string())),
        ("b".to_string(), JsonValue::Number { text: "3".to_string(), whole: Some(3) }),
    ]);
    assert_eq!(value.text_at("a").as_deref(), Some("x"));
    assert_eq!(value.number_at("a"), None);
    assert_eq!(value.number_at("b"), Some(3));
    assert_eq!(value.text_at("b"), None);
    assert_eq!(value.member("c"), None);
    assert_eq!(JsonValue::Null.text_at("a"), None);
}

#[test]
fn json_is_read_as_a_tree() {
    let value = parse_json("{\"b\": [1, -2, 2.5, \"\\u00e9\"], \"a\": {\"c\": null}, \"d\": true}").unwrap();
    let number = |text: &str, whole: Option<u64>| JsonValue::Number { text: text.to_string(), whole };
    assert_eq!(
        value,
        JsonValue::Object(vec![
            ("a".to_string(), JsonValue::Object(vec![("c".to_string(), JsonValue::Null)])),
            (
                "b".to_string(),
                JsonValue::List(vec![
                    number("1", Some(1)),
                    number("-2", None),
                    number("2.5", None),
                    JsonValue::Text("\u{e9}".to_string()),
                ])
            ),
            ("d".to_string(), JsonValue::Bool(true)),
        ])
    );
    assert_eq!(
        parse_json("[1,"),
        Err("EOF while parsing a value at line 1 column 3".to_string())
    );
}
