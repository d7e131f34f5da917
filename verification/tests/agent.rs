use demo_cc::agent::{classify_input, tool_call_output, LoopState, ToolRound, UserInput};
use demo_cc::hook::{HookControl, HookList, HookRun, HookTypes};
use demo_cc::json::JsonValue;
use demo_cc::message::{ContentBlock, MessageContent, Role, StopReason};
use demo_cc::permission::{permission_step, user_denied_output, PermissionBehavior, PermissionDecision, PermissionStep};

fn call(id: &str, name: &str, input: JsonValue) -> ContentBlock {
    ContentBlock::ToolUse { id: id.to_string(), name: name.to_string(), input }
}

fn object(members: Vec<(&str, JsonValue)>) -> JsonValue {
    JsonValue::Object(members.into_iter().map(|(k, v)| (k.to_string(), v)).collect())
}

fn text(t: &str) -> JsonValue {
    JsonValue::Text(t.to_string())
}

#[test]
fn response_decides_whether_tools_run() {
    let mut state = LoopState::new(5);
    assert!(state.record_response(vec![], Some(StopReason::ToolUse)));
    assert!(state.record_response(vec![], None));
    assert!(!state.record_response(vec![], Some(StopReason::EndTurn)));
    assert!(!state.record_response(vec![], Some(StopReason::MaxTokens)));
    assert_eq!(state.context.len(), 4);
    assert_eq!(state.context[0].role, Role::Assistant);
    assert_eq!(state.max_round(), 5);
}

#[test]
fn round_answers_every_call_in_order() {
    let content = vec![
        ContentBlock::Text { text: "working".to_string() },
        call("c1", "read_file", object(vec![("path", text("src/lib.rs"))])),
        call("c2", "bash", object(vec![("command", text("ls"))])),
    ];
    let mut state = LoopState::new(10);
    state.record_response(content.iter().map(|b| b.duplicate()).collect(), Some(StopReason::ToolUse));
    let mut round = ToolRound::new(&content);
    let first = round.next_request().unwrap();
    assert_eq!(first.name, "read_file");
    round.answer(first.id.clone(), "file text".to_string(), &HookControl::Continue);
    let second = round.next_request().unwrap();
    assert_eq!(second.id, "c2");
    round.answer_blocked(second.id.clone(), "not today");
    assert!(round.next_request().is_none());
    assert!(round.is_done());
    let follow_up = state.finish_tool_round(round);
    assert_eq!(follow_up.read_paths, vec!["src/lib.rs".to_string()]);
    assert!(follow_up.compact.is_none());
    let last = state.context.last().unwrap();
    assert_eq!(last.role, Role::User);
    match &last.content {
        MessageContent::Blocks { content } => {
            assert_eq!(content.len(), 2);
            assert!(matches!(&content[0], ContentBlock::ToolResult { tool_use_id, content } if tool_use_id == "c1" && content == "file text"));
            assert!(matches!(&content[1], ContentBlock::ToolResult { tool_use_id, content } if tool_use_id == "c2" && content == "Tool blocked by PreToolUse hook: not today"));
        },
        _ => panic!("expected blocks"),
    }
    assert_eq!(state.rounds_since_update(), 1);
}

#[test]
fn post_hook_block_replaces_the_output() {
    let content = vec![call("p", "bash", object(vec![]))];
    let mut round = ToolRound::new(&content);
    let request = round.next_request().unwrap();
    round.answer(request.id, "secret".to_string(), &HookControl::Block("redacted".to_string()));
    let mut state = LoopState::new(1);
    state.finish_tool_round(round);
    match &state.context[0].content {
        MessageContent::Blocks { content } => {
            assert!(matches!(&content[0], ContentBlock::ToolResult { content, .. } if content == "Tool blocked by PostToolUse hook: redacted"));
        },
        _ => panic!("expected blocks"),
    }
}

fn empty_round(state: &mut LoopState, name: &str) {
    let content = vec![call("x", name, object(vec![("focus", text("tests"))]))];
    let mut round = ToolRound::new(&content);
    let r = round.next_request().unwrap();
    round.answer(r.id, "ok".to_string(), &HookControl::Continue);
    let follow_up = state.finish_tool_round(round);
    if name == "compact" {
        assert_eq!(follow_up.compact, Some(Some("tests".to_string())));
    }
}

fn opens_with_reminder(state: &LoopState) -> bool {
    match &state.context.last().unwrap().content {
        MessageContent::Blocks { content } => matches!(&content[0], ContentBlock::Text { text } if text == "<reminder>Refresh your current plan before continuing.</reminder>"),
        _ => false,
    }
}

#[test]
fn plan_reminder_after_three_rounds_without_update() {
    let mut state = LoopState::new(10);
    empty_round(&mut state, "bash");
    assert!(!opens_with_reminder(&state));
    empty_round(&mut state, "bash");
    assert!(!opens_with_reminder(&state));
    assert!(state.reminder().is_none());
    empty_round(&mut state, "compact");
    assert!(opens_with_reminder(&state));
    assert_eq!(state.rounds_since_update(), 3);
    assert!(state.reminder().is_some());
    empty_round(&mut state, "todo");
    assert!(!opens_with_reminder(&state));
    assert_eq!(state.rounds_since_update(), 0);
}

#[test]
fn tool_outputs() {
    assert_eq!(tool_call_output("nope", None), "Unknown tool: nope");
    assert_eq!(tool_call_output("bash", Some(Ok("out".to_string()))), "out");
    assert_eq!(tool_call_output("bash", Some(Err("boom".to_string()))), "Error invoking tool bash: boom");
}

#[test]
fn permission_steps() {
    let deny = PermissionDecision { behavior: PermissionBehavior::Deny, reason: "rule 3".to_string() };
    assert!(matches!(permission_step(&deny), PermissionStep::Refuse(t) if t == "Permission denied: rule 3"));
    let allow = PermissionDecision { behavior: PermissionBehavior::Allow, reason: String::new() };
    assert!(matches!(permission_step(&allow), PermissionStep::Run));
    let ask = PermissionDecision { behavior: PermissionBehavior::Ask, reason: String::new() };
    assert!(matches!(permission_step(&ask), PermissionStep::AskUser));
    assert_eq!(user_denied_output("bash"), "Permission denied by user for : bash");
}

#[test]
fn user_input_is_classified() {
    assert!(matches!(classify_input("   "), UserInput::Empty));
    assert!(matches!(classify_input(" .exit\n"), UserInput::Exit));
    assert!(matches!(classify_input(".rules"), UserInput::Rules));
    assert!(matches!(classify_input(".memory"), UserInput::Memory));
    assert!(matches!(classify_input("  .mode plan "), UserInput::Mode(t) if t == ".mode plan"));
    assert!(matches!(classify_input("  fix the bug \t"), UserInput::Prompt(t) if t == "fix the bug"));
    assert!(matches!(classify_input(".exits"), UserInput::Prompt(t) if t == ".exits"));
}

#[test]
fn mode_argument_needs_two_words() {
    assert_eq!(LoopState::mode_argument(".mode  auto"), Some("auto".to_string()));
    assert_eq!(LoopState::mode_argument(".mode"), None);
    assert_eq!(LoopState::mode_argument(".mode a b"), None);
}

#[test]
fn instructions_are_gathered_under_headings() {
    assert_eq!(LoopState::instructions_prompt("AGENTS.md", &vec![]), "");
    let sources = vec![
        ("project root (AGENTS.md)".to_string(), "  Use tabs.\n".to_string()),
        ("user global".to_string(), "Be brief.".to_string()),
    ];
    assert_eq!(
        LoopState::instructions_prompt("AGENTS.md", &sources),
        "# AGENTS.md instructions\n\n## From project root (AGENTS.md)\n\nUse tabs.\n\n## From user global\n\nBe brief."
    );
}

#[test]
fn dynamic_context_lines() {
    assert_eq!(
        LoopState::dynamic_context("2024-05-01", "/w", None, "linux"),
        "# Dynamic context\nCurrent date: 2024-05-01\nWorking directory: /w\nModel: unknown\nPlatform: linux"
    );
    assert_eq!(
        LoopState::dynamic_context("d", "/w", Some("m1".to_string()), "macos"),
        "# Dynamic context\nCurrent date: d\nWorking directory: /w\nModel: m1\nPlatform: macos"
    );
}

#[test]
fn system_prompt_renders_its_parts() {
    let p = LoopState::system_prompt("/work", "skill list".to_string(), "remembered".to_string(), String::new(), "ctx".to_string(), "  guide  ");
    let text = p.to_prompt().render(&demo_cc::prompt::TemplateRegistry::new()).unwrap();
    assert!(text.contains("You are a coding agent operating in /work."));
    assert!(text.contains("- Think step by step"));
    assert!(text.contains("skill list"));
    assert!(text.contains("remembered"));
    assert!(text.contains("guide"));
    assert!(!text.contains("  guide  "));
}

#[test]
fn a_turn_runs_at_most_max_round_rounds() {
    let mut state = LoopState::new(2);
    state.begin_turn();
    assert!(state.begin_round());
    assert!(state.begin_round());
    assert!(!state.begin_round());
    state.begin_turn();
    assert!(state.begin_round());
    let mut none = LoopState::new(0);
    none.begin_turn();
    assert!(!none.begin_round());
}

#[test]
fn hooks_are_picked_by_kind_in_order() {
    let mut hooks: HookList<&str> = HookList::new();
    assert!(hooks.of_kind(HookTypes::SessionStart).is_empty());
    hooks.register(HookTypes::PreToolUse, "a");
    hooks.register(HookTypes::SessionStart, "b");
    hooks.register(HookTypes::PreToolUse, "c");
    hooks.register(HookTypes::PostToolUse, "d");
    assert_eq!(hooks.of_kind(HookTypes::PreToolUse), vec![&"a", &"c"]);
    assert_eq!(hooks.of_kind(HookTypes::PostToolUse), vec![&"d"]);
    hooks.register(HookTypes::PreToolUse, "e");
    assert_eq!(hooks.of_kind(HookTypes::PreToolUse), vec![&"a", &"c", &"e"]);
    assert_eq!(hooks.of_kind(HookTypes::SessionStart), vec![&"b"]);
}

#[test]
fn the_first_blocking_hook_ends_the_run() {
    let mut run = HookRun::new(3);
    assert_eq!(run.next(), Some(0));
    run.record(HookControl::Continue);
    assert_eq!(run.next(), Some(1));
    run.record(HookControl::Block("no".to_string()));
    assert_eq!(run.next(), None);
    assert_eq!(run.outcome(), HookControl::Block("no".to_string()));
    let mut quiet = HookRun::new(2);
    while let Some(_) = quiet.next() {
        quiet.record(HookControl::Continue);
    }
    assert_eq!(quiet.outcome(), HookControl::Continue);
    assert_eq!(HookRun::new(0).next(), None);
}
