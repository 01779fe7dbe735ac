use jcode_app_core::config::{MangleConfig, MangleMapping};
use jcode_app_core::mangle::{
    demangle_text, effective_mangle_enabled, effective_mangle_mappings,
    forget_session_mangle_config, mangle_input, mangle_message, mangle_text, mangle_value,
    reparsed_input,
    session_mangle_config, update_session_mangle_config, SessionMangleConfigs,
};
use jcode_app_core::json::JsonValue;
use jcode_app_core::message::{ContentBlock, Message, Role};

fn mapping(sensitive: &str, replacement: &str) -> MangleMapping {
    MangleMapping { sensitive: sensitive.to_string(), replacement: replacement.to_string() }
}

fn setup(mappings: Vec<MangleMapping>) -> (SessionMangleConfigs, MangleConfig) {
    let mut configs = SessionMangleConfigs::new();
    update_session_mangle_config(&mut configs, "test_session", Some(Some(true)), Some(Some(mappings)));
    (configs, MangleConfig::default())
}

fn setup_test_mappings() -> (SessionMangleConfigs, MangleConfig) {
    setup(vec![mapping("ProjectX", "the project"), mapping("secret_api_key_42", "[REDACTED]")])
}

#[test]
fn test_mangle_text_basic() {
    let (configs, file) = setup_test_mappings();
    let result = mangle_text(&configs, &file, "ProjectX is a secret project", "test_session");
    assert_eq!(result, "the project is a secret project");
}

#[test]
fn test_demangle_text_basic() {
    let (configs, file) = setup_test_mappings();
    let result = demangle_text(&configs, &file, "the project is a secret project", "test_session");
    assert_eq!(result, "ProjectX is a secret project");
}

#[test]
fn test_mangle_disabled() {
    let (configs, file) = setup_test_mappings();
    let result = mangle_text(&configs, &file, "ProjectX is secret", "no_config_session");
    assert_eq!(result, "ProjectX is secret");
}

#[test]
fn test_mangle_multiple_mappings() {
    let (configs, file) = setup_test_mappings();
    let result = mangle_text(
        &configs,
        &file,
        "ProjectX uses secret_api_key_42 for auth",
        "test_session",
    );
    assert_eq!(result, "the project uses [REDACTED] for auth");
}

#[test]
fn test_demangle_multiple_mappings() {
    let (configs, file) = setup_test_mappings();
    let result = demangle_text(
        &configs,
        &file,
        "the project uses [REDACTED] for auth",
        "test_session",
    );
    assert_eq!(result, "ProjectX uses secret_api_key_42 for auth");
}

#[test]
fn test_mangle_roundtrip() {
    let (configs, file) = setup_test_mappings();
    let original = "My project is ProjectX and the key is secret_api_key_42";
    let mangled = mangle_text(&configs, &file, original, "test_session");
    let demangled = demangle_text(&configs, &file, &mangled, "test_session");
    assert_eq!(demangled.as_str(), original);
}

#[test]
fn test_mangle_no_sensitive_text() {
    let (configs, file) = setup_test_mappings();
    let result = mangle_text(&configs, &file, "Hello world, nothing sensitive here", "test_session");
    assert_eq!(result, "Hello world, nothing sensitive here");
}

#[test]
fn test_mangle_empty_mappings() {
    let mut configs = SessionMangleConfigs::new();
    update_session_mangle_config(&mut configs, "empty_session", Some(Some(true)), Some(Some(vec![])));
    let file = MangleConfig::default();
    let result = mangle_text(&configs, &file, "ProjectX is sensitive", "empty_session");
    assert_eq!(result, "ProjectX is sensitive");
}

#[test]
fn test_mangle_message_text_block() {
    let (configs, file) = setup_test_mappings();
    let mut msg = Message::user("ProjectX is sensitive");
    mangle_message(&configs, &file, &mut msg, "test_session");
    let text = msg.content.first().unwrap();
    match text {
        ContentBlock::Text { text, .. } => {
            assert_eq!(text, "the project is sensitive");
        }
        _ => panic!("Expected Text block"),
    }
}

#[test]
fn test_mangle_message_tool_result() {
    let (configs, file) = setup_test_mappings();
    let mut msg = Message {
        role: Role::User,
        content: vec![ContentBlock::ToolResult {
            tool_use_id: "call_1".to_string(),
            content: "The result contains secret_api_key_42".to_string(),
            is_error: None,
        }],
        timestamp: Some(chrono::Utc::now().timestamp_millis()),
        tool_duration_ms: None,
    };
    mangle_message(&configs, &file, &mut msg, "test_session");
    match &msg.content[0] {
        ContentBlock::ToolResult { content, .. } => {
            assert_eq!(content, "The result contains [REDACTED]");
        }
        _ => panic!("Expected ToolResult block"),
    }
}

#[test]
fn every_block_with_text_is_mangled_and_the_rest_is_kept() {
    let (configs, file) = setup_test_mappings();
    let mut msg = Message {
        role: Role::Assistant,
        content: vec![
            ContentBlock::Text { text: "ProjectX".to_string(), cache_control: Some("ProjectX".to_string()) },
            ContentBlock::Reasoning { text: "ProjectX".to_string() },
            ContentBlock::ReasoningTrace { text: "ProjectX".to_string() },
            ContentBlock::AnthropicThinking {
                thinking: "ProjectX".to_string(),
                signature: "ProjectX".to_string(),
            },
            ContentBlock::ToolResult {
                tool_use_id: "ProjectX".to_string(),
                content: "ProjectX".to_string(),
                is_error: Some(true),
            },
            ContentBlock::Image { media_type: "image/png".to_string(), data: "ProjectX".to_string() },
            ContentBlock::OpenAICompaction { encrypted_content: "ProjectX".to_string() },
        ],
        timestamp: Some(5),
        tool_duration_ms: Some(7),
    };
    mangle_message(&configs, &file, &mut msg, "test_session");
    let expected = Message {
        role: Role::Assistant,
        content: vec![
            ContentBlock::Text {
                text: "the project".to_string(),
                cache_control: Some("ProjectX".to_string()),
            },
            ContentBlock::Reasoning { text: "the project".to_string() },
            ContentBlock::ReasoningTrace { text: "the project".to_string() },
            ContentBlock::AnthropicThinking {
                thinking: "the project".to_string(),
                signature: "ProjectX".to_string(),
            },
            ContentBlock::ToolResult {
                tool_use_id: "ProjectX".to_string(),
                content: "the project".to_string(),
                is_error: Some(true),
            },
            ContentBlock::Image { media_type: "image/png".to_string(), data: "ProjectX".to_string() },
            ContentBlock::OpenAICompaction { encrypted_content: "ProjectX".to_string() },
        ],
        timestamp: Some(5),
        tool_duration_ms: Some(7),
    };
    assert_eq!(msg, expected);
}

fn text(s: &str) -> JsonValue {
    JsonValue::Text(s.to_string())
}

fn number(n: u64) -> JsonValue {
    JsonValue::Number { text: n.to_string(), whole: Some(n) }
}

fn object(key: &str, value: JsonValue) -> JsonValue {
    JsonValue::Object(vec![(key.to_string(), value)])
}

fn tool_use_after(input: JsonValue) -> JsonValue {
    let (configs, file) = setup_test_mappings();
    let mut msg = Message {
        role: Role::Assistant,
        content: vec![ContentBlock::ToolUse {
            id: "ProjectX".to_string(),
            name: "read".to_string(),
            input,
        }],
        timestamp: None,
        tool_duration_ms: None,
    };
    mangle_message(&configs, &file, &mut msg, "test_session");
    match msg.content.remove(0) {
        ContentBlock::ToolUse { id, name, input } => {
            assert_eq!(id, "ProjectX");
            assert_eq!(name, "read");
            input
        }
        _ => panic!("Expected ToolUse block"),
    }
}

#[test]
fn tool_input_text_is_mangled_and_parsed() {
    let sent = tool_use_after(text("{\"path\": \"ProjectX\", \"line\": 7}"));
    assert_eq!(
        sent,
        JsonValue::Object(vec![
            ("line".to_string(), number(7)),
            ("path".to_string(), text("the project")),
        ])
    );
    assert_eq!(tool_use_after(text("\"say \\u0041 ProjectX\"")), text("say A the project"));
    assert_eq!(
        tool_use_after(text("[null, true, -1.5]")),
        JsonValue::List(vec![
            JsonValue::Null,
            JsonValue::Bool(true),
            JsonValue::Number { text: "-1.5".to_string(), whole: None },
        ])
    );
}

#[test]
fn tool_input_text_that_is_no_json_is_mangled() {
    assert_eq!(tool_use_after(text("ProjectX")), text("the project"));
    assert_eq!(tool_use_after(text("ProjectX {")), text("the project {"));
}

#[test]
fn strings_in_tool_input_values_are_mangled() {
    assert_eq!(
        tool_use_after(object("name", text("ProjectX"))),
        object("name", text("the project"))
    );
    let nested = |s: &str| {
        JsonValue::Object(vec![
            ("ProjectX".to_string(), JsonValue::List(vec![number(1), object("k", text(s))])),
            ("flag".to_string(), JsonValue::Bool(false)),
            ("none".to_string(), JsonValue::Null),
        ])
    };
    assert_eq!(tool_use_after(nested("a ProjectX b")), nested("a the project b"));
    assert_eq!(
        tool_use_after(JsonValue::List(vec![text("\"ProjectX\"")])),
        JsonValue::List(vec![text("\"the project\"")])
    );
}

#[test]
fn values_are_mangled_for_their_session() {
    let (configs, file) = setup_test_mappings();
    let value = || object("name", text("ProjectX"));
    let sent = mangle_value(&configs, &file, &value(), "test_session");
    assert_eq!(sent, object("name", text("the project")));
    assert_eq!(mangle_value(&configs, &file, &value(), "other"), value());
    let input = mangle_input(&configs, &file, &text("ProjectX"), "test_session");
    assert_eq!(input, text("the project"));
}

#[test]
fn reparsed_input_mangles_the_value_that_was_read() {
    let (configs, file) = setup_test_mappings();
    let reparsed = |text: &str, parsed| {
        reparsed_input(&configs, &file, text.to_string(), parsed, "test_session")
    };
    assert_eq!(reparsed("new", Ok(text("value"))), text("value"));
    assert_eq!(reparsed("new", Ok(text("of ProjectX"))), text("of the project"));
    assert_eq!(reparsed("17", Ok(number(17))), number(17));
    assert_eq!(reparsed("new", Err("no".to_string())), text("new"));
}

#[test]
fn words_spelled_with_escapes_are_hidden() {
    assert_eq!(tool_use_after(text("\"Project\\u0058\"")), text("the project"));
    assert_eq!(
        tool_use_after(text("{\"name\": [\"Project\\u0058\"]}")),
        object("name", JsonValue::List(vec![text("the project")]))
    );
}

#[test]
fn message_is_kept_if_mangling_is_off() {
    let (mut configs, file) = setup_test_mappings();
    update_session_mangle_config(&mut configs, "test_session", Some(Some(false)), None);
    let mut msg = Message::user("ProjectX");
    mangle_message(&configs, &file, &mut msg, "test_session");
    assert_eq!(msg, Message::user("ProjectX"));
}

#[test]
fn session_settings_come_before_the_file() {
    let file = MangleConfig { enabled: true, mappings: vec![mapping("a", "b")] };
    let mut configs = SessionMangleConfigs::new();
    assert!(session_mangle_config(&configs, "s").is_none());
    assert_eq!(mangle_text(&configs, &file, "aba", "s"), "bbb");
    update_session_mangle_config(&mut configs, "s", None, Some(Some(vec![mapping("a", "cd")])));
    assert!(effective_mangle_enabled(&configs, &file, "s"));
    assert_eq!(mangle_text(&configs, &file, "aba", "s"), "cdbcd");
    assert_eq!(mangle_text(&configs, &file, "aba", "other"), "bbb");
    update_session_mangle_config(&mut configs, "s", Some(Some(false)), None);
    assert_eq!(mangle_text(&configs, &file, "aba", "s"), "aba");
    assert_eq!(demangle_text(&configs, &file, "cd", "s"), "cd");
    update_session_mangle_config(&mut configs, "s", Some(None), None);
    assert_eq!(mangle_text(&configs, &file, "aba", "s"), "cdbcd");
    forget_session_mangle_config(&mut configs, "s");
    assert!(session_mangle_config(&configs, "s").is_none());
    let mappings = effective_mangle_mappings(&configs, &file, "s");
    assert_eq!(mappings.len(), 1);
    assert_eq!(mappings[0].replacement, "b");
}

#[test]
fn mappings_with_an_empty_side_are_passed_over() {
    let (configs, file) = setup(vec![mapping("", "x"), mapping("y", ""), mapping("z", "w")]);
    assert_eq!(mangle_text(&configs, &file, "xyz", "test_session"), "xyw");
    assert_eq!(demangle_text(&configs, &file, "xyw", "test_session"), "xyz");
}

#[test]
fn mappings_are_applied_in_order_and_undone_in_reverse() {
    let (configs, file) = setup(vec![mapping("a", "b"), mapping("b", "c")]);
    assert_eq!(mangle_text(&configs, &file, "ab", "test_session"), "cc");
    assert_eq!(demangle_text(&configs, &file, "cc", "test_session"), "aa");
    let (configs, file) = setup(vec![mapping("one", "x"), mapping("two", "xy")]);
    assert_eq!(demangle_text(&configs, &file, "xy x", "test_session"), "two one");
}

#[test]
fn text_that_holds_a_replacement_is_not_restored() {
    let (configs, file) = setup_test_mappings();
    let mangled = mangle_text(&configs, &file, "the project", "test_session");
    assert_eq!(mangled, "the project");
    assert_eq!(demangle_text(&configs, &file, &mangled, "test_session"), "ProjectX");
}

#[test]
fn sensitive_word_can_come_back_at_a_seam() {
    let (configs, file) = setup(vec![mapping("ab", "b")]);
    assert_eq!(mangle_text(&configs, &file, "aab", "test_session"), "ab");
}

#[test]
fn clashing_words_are_hidden_and_stay_so() {
    let (configs, file) = setup(vec![mapping("key", "<1>"), mapping("name", "<2>")]);
    let once = mangle_text(&configs, &file, "key of name, name of key", "test_session");
    assert_eq!(once, "<1> of <2>, <2> of <1>");
    assert_eq!(mangle_text(&configs, &file, &once, "test_session"), once);
    assert_eq!(demangle_text(&configs, &file, &once, "test_session"), "key of name, name of key");
    assert_eq!(demangle_text(&configs, &file, "plain", "test_session"), "plain");
}
