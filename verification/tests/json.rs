use demo_cc::hook::{HookControl, HookTypes};
use demo_cc::json::{JsonNumber, JsonValue};
use demo_cc::message::{ContentBlock, Message, MessageContent, Role};
use demo_cc::agent::LoopState;

#[test]
fn json_members() {
    let v = JsonValue::Object(vec![
        ("a".to_string(), JsonValue::Text("x".to_string())),
        ("n".to_string(), JsonValue::Number(JsonNumber::PosInt(9))),
        ("l".to_string(), JsonValue::Array(vec![])),
    ]);
    assert_eq!(v.get("a").unwrap().as_str(), Some("x"));
    assert_eq!(v.get("n").unwrap().as_u64(), Some(9));
    assert!(v.get("l").unwrap().is_array());
    assert!(v.get("zz").is_none());
    assert!(JsonValue::Text("a".to_string()).get("a").is_none());
    assert_eq!(JsonValue::Number(JsonNumber::Float("1.5".to_string())).as_u64(), None);
    assert!(matches!(v.duplicate(), JsonValue::Object(m) if m.len() == 3));
}

#[test]
fn hook_answers() {
    assert!(!HookControl::Continue.is_block());
    assert!(HookControl::Block("no".to_string()).is_block());
    assert_eq!(HookTypes::SessionStart.name(), "SessionStart");
    assert_eq!(HookTypes::PreToolUse.name(), "PreToolUse");
    assert_eq!(HookTypes::PostToolUse.name(), "PostToolUse");
}

#[test]
fn text_of_messages() {
    let blocks = MessageContent::Blocks {
        content: vec![
            ContentBlock::Text { text: "one".to_string() },
            ContentBlock::ToolUse { id: "i".to_string(), name: "bash".to_string(), input: JsonValue::Null },
            ContentBlock::Text { text: "two".to_string() },
        ],
    };
    assert_eq!(LoopState::extract_text(&blocks), "one\ntwo");
    assert_eq!(LoopState::extract_text(&MessageContent::Text { content: "plain".to_string() }), "plain");
    assert_eq!(LoopState::extract_text(&MessageContent::Blocks { content: vec![] }), "");
    let m = Message::new_text(Role::User, "hi".to_string());
    let mut state = LoopState::new(2);
    state.push_user_text("hi".to_string());
    assert_eq!(state.normalize_messages().len(), 1);
    assert_eq!(m.role, Role::User);
}


#[test]
fn decimal_writing_and_text_equality() {
    assert_eq!(demo_cc::text::usize_to_decimal(0), "0");
    assert_eq!(demo_cc::text::usize_to_decimal(7), "7");
    assert_eq!(demo_cc::text::usize_to_decimal(10), "10");
    assert_eq!(demo_cc::text::usize_to_decimal(12345), "12345");
    assert_eq!(demo_cc::text::usize_to_decimal(usize::MAX), usize::MAX.to_string());
    assert!(demo_cc::text::str_eq("héllo", "héllo"));
    assert!(!demo_cc::text::str_eq("héllo", "hello"));
    assert!(!demo_cc::text::str_eq("ab", "abc"));
    assert!(demo_cc::text::str_eq("", ""));
}
