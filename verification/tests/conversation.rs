use demo_cc::conversation::{last_assistant_summary, normalize_messages, strip_orphan_tool_results};
use demo_cc::json::JsonValue;
use demo_cc::message::{ContentBlock, Message, MessageContent, Role};

fn text(role: Role, t: &str) -> Message {
    Message::new_text(role, t.to_string())
}

fn tool_use(id: &str, name: &str) -> ContentBlock {
    ContentBlock::ToolUse { id: id.to_string(), name: name.to_string(), input: JsonValue::Object(Vec::new()) }
}

fn tool_result(id: &str, content: &str) -> ContentBlock {
    ContentBlock::ToolResult { tool_use_id: id.to_string(), content: content.to_string() }
}

fn text_block(t: &str) -> ContentBlock {
    ContentBlock::Text { text: t.to_string() }
}

fn blocks(m: &Message) -> &Vec<ContentBlock> {
    match &m.content {
        MessageContent::Blocks { content } => content,
        MessageContent::Text { .. } => panic!("expected blocks"),
    }
}

fn result_of(b: &ContentBlock) -> (&str, &str) {
    match b {
        ContentBlock::ToolResult { tool_use_id, content } => (tool_use_id.as_str(), content.as_str()),
        _ => panic!("expected a tool result"),
    }
}

#[test]
fn missing_result_is_cancelled() {
    let context = vec![
        text(Role::User, "hi"),
        Message::new_blocks(Role::Assistant, vec![text_block("let me look"), tool_use("t1", "bash")]),
    ];
    let out = normalize_messages(&context);
    assert_eq!(out.len(), 3);
    assert_eq!(out[2].role, Role::User);
    let b = blocks(&out[2]);
    assert_eq!(b.len(), 1);
    assert_eq!(result_of(&b[0]), ("t1", "(cancelled)"));
}

#[test]
fn results_follow_their_requests_in_order() {
    let context = vec![
        text(Role::User, "go"),
        Message::new_blocks(Role::Assistant, vec![tool_use("a", "bash"), tool_use("b", "read_file")]),
        Message::new_blocks(Role::User, vec![text_block("note"), tool_result("b", "B"), tool_result("a", "A")]),
    ];
    let out = normalize_messages(&context);
    assert_eq!(out.len(), 3);
    let b = blocks(&out[2]);
    assert_eq!(b.len(), 3);
    assert_eq!(result_of(&b[0]), ("a", "A"));
    assert_eq!(result_of(&b[1]), ("b", "B"));
    assert!(matches!(&b[2], ContentBlock::Text { text } if text == "note"));
}

#[test]
fn orphan_results_are_dropped() {
    let context = vec![
        Message::new_blocks(Role::User, vec![tool_result("x", "stale")]),
        text(Role::Assistant, "hello"),
        Message::new_blocks(Role::User, vec![tool_result("y", "stale"), text_block("question")]),
    ];
    let out = normalize_messages(&context);
    assert_eq!(out.len(), 2);
    assert_eq!(out[0].role, Role::Assistant);
    let b = blocks(&out[1]);
    assert_eq!(b.len(), 1);
    assert!(matches!(&b[0], ContentBlock::Text { text } if text == "question"));
}

#[test]
fn consecutive_texts_of_one_sender_are_joined() {
    let context = vec![text(Role::User, "one"), text(Role::User, "two"), text(Role::Assistant, "three")];
    let out = normalize_messages(&context);
    assert_eq!(out.len(), 2);
    assert!(matches!(&out[0].content, MessageContent::Text { content } if content == "one\ntwo"));
}

#[test]
fn text_then_blocks_merge_into_blocks() {
    let context = vec![
        text(Role::Assistant, "first"),
        Message::new_blocks(Role::Assistant, vec![tool_use("t", "bash")]),
        Message::new_blocks(Role::User, vec![tool_result("t", "ok")]),
        text(Role::User, "thanks"),
    ];
    let out = normalize_messages(&context);
    assert_eq!(out.len(), 2);
    let a = blocks(&out[0]);
    assert_eq!(a.len(), 2);
    assert!(matches!(&a[0], ContentBlock::Text { text } if text == "first"));
    let u = blocks(&out[1]);
    assert_eq!(u.len(), 2);
    assert_eq!(result_of(&u[0]), ("t", "ok"));
    assert!(matches!(&u[1], ContentBlock::Text { text } if text == "thanks"));
}

#[test]
fn senders_alternate_after_normalizing() {
    let context = vec![
        text(Role::User, "a"),
        text(Role::User, "b"),
        Message::new_blocks(Role::Assistant, vec![tool_use("1", "todo")]),
        Message::new_blocks(Role::Assistant, vec![tool_use("2", "bash")]),
        text(Role::Assistant, "c"),
        text(Role::User, "d"),
    ];
    let out = normalize_messages(&context);
    for w in out.windows(2) {
        assert_ne!(w[0].role, w[1].role);
    }
    for (i, m) in out.iter().enumerate() {
        if let MessageContent::Blocks { content } = &m.content {
            if m.role == Role::Assistant && content.iter().any(|b| matches!(b, ContentBlock::ToolUse { .. })) {
                assert!(i + 1 < out.len());
                assert_eq!(out[i + 1].role, Role::User);
            }
        }
    }
}

#[test]
fn repeated_request_id_takes_the_last_result_once() {
    let context = vec![
        Message::new_blocks(Role::Assistant, vec![tool_use("d", "bash"), tool_use("d", "bash")]),
        Message::new_blocks(Role::User, vec![tool_result("d", "first"), tool_result("d", "second")]),
    ];
    let out = normalize_messages(&context);
    let b = blocks(&out[1]);
    assert_eq!(b.len(), 2);
    assert_eq!(result_of(&b[0]), ("d", "second"));
    assert_eq!(result_of(&b[1]), ("d", "(cancelled)"));
}

#[test]
fn request_followed_by_text_user_message() {
    let context = vec![
        Message::new_blocks(Role::Assistant, vec![tool_use("q", "bash")]),
        text(Role::User, "interrupted"),
    ];
    let out = normalize_messages(&context);
    assert_eq!(out.len(), 2);
    let b = blocks(&out[1]);
    assert_eq!(result_of(&b[0]), ("q", "(cancelled)"));
    assert!(matches!(&b[1], ContentBlock::Text { text } if text == "interrupted"));
}

#[test]
fn stripping_keeps_other_senders_and_text() {
    let a = strip_orphan_tool_results(Message::new_blocks(Role::Assistant, vec![tool_result("z", "r")])).unwrap();
    assert_eq!(blocks(&a).len(), 1);
    assert!(strip_orphan_tool_results(Message::new_blocks(Role::User, vec![tool_result("z", "r")])).is_none());
    let t = strip_orphan_tool_results(text(Role::User, "plain")).unwrap();
    assert!(matches!(&t.content, MessageContent::Text { content } if content == "plain"));
}

#[test]
fn summary_is_the_last_assistant_text() {
    let context = vec![
        text(Role::Assistant, "early"),
        Message::new_blocks(Role::Assistant, vec![text_block("done"), tool_use("x", "bash"), text_block("really")]),
        text(Role::User, "ok"),
    ];
    assert_eq!(last_assistant_summary(&context), "done\nreally");
}

#[test]
fn summary_stands_in_when_there_is_nothing_to_say() {
    assert_eq!(last_assistant_summary(&vec![text(Role::User, "hi")]), "(no summary)");
    let silent = vec![Message::new_blocks(Role::Assistant, vec![tool_use("x", "bash")])];
    assert_eq!(last_assistant_summary(&silent), "(no summary)");
}

#[test]
fn normalizing_twice_changes_nothing() {
    let context = vec![
        Message::new_blocks(Role::User, vec![tool_result("stale", "old"), text_block("start")]),
        text(Role::User, "more"),
        Message::new_blocks(Role::Assistant, vec![text_block("a"), tool_use("t1", "bash"), tool_use("t2", "read_file")]),
        Message::new_blocks(Role::User, vec![tool_result("t2", "two"), text_block("note"), tool_result("x", "orphan")]),
        text(Role::Assistant, "thinking"),
        Message::new_blocks(Role::Assistant, vec![tool_use("t3", "bash")]),
        Message::new_blocks(Role::User, vec![tool_result("t3", "three")]),
        text(Role::User, "thanks"),
    ];
    let once = normalize_messages(&context);
    let twice = normalize_messages(&once);
    assert_eq!(format!("{:?}", once), format!("{:?}", twice));
    assert_eq!(once.len(), 5);
}
