use demo_cc::json::JsonValue;
use demo_cc::tool::todo::{PlanItem, PlanItemStatus, TodoManagerTool};
use demo_cc::tool::ToolError;

fn item(status: PlanItemStatus, content: &str, active: Option<&str>) -> PlanItem {
    PlanItem::new(status, content.to_string(), active.map(|a| a.to_string()))
}

#[test]
fn empty_plan() {
    let tool = TodoManagerTool::new();
    assert_eq!(tool.name(), "todo");
    assert_eq!(tool.render(), "No session plan yet");
}

#[test]
fn plan_is_rendered_with_progress() {
    let mut tool = TodoManagerTool::new();
    let out = tool
        .update(vec![
            item(PlanItemStatus::Completed, "read code", Some("reading")),
            item(PlanItemStatus::InProgress, "fix bug", Some("fixing the bug")),
            item(PlanItemStatus::Pending, "write tests", None),
        ])
        .unwrap();
    assert_eq!(out, "[x] read code\n[>] fix bug (fixing the bug)\n[ ] write tests\n(1/3 completed)");
    assert_eq!(tool.render(), out);
}

#[test]
fn plan_with_too_many_items_is_refused() {
    let mut tool = TodoManagerTool::new();
    tool.update(vec![item(PlanItemStatus::Pending, "keep", None)]).unwrap();
    let many = (0..13).map(|i| item(PlanItemStatus::Pending, &format!("step {i}"), None)).collect();
    let err = tool.update(many).unwrap_err();
    assert!(matches!(err, ToolError::PlanTooLong));
    assert_eq!(err.message(), "Keep the session plan short (max 12 items)");
    assert_eq!(tool.render(), "[ ] keep\n(0/1 completed)");
    let twelve = (0..12).map(|i| item(PlanItemStatus::Completed, &format!("s{i}"), None)).collect();
    assert!(tool.update(twelve).unwrap().ends_with("(12/12 completed)"));
}

#[test]
fn plan_with_two_items_in_progress_is_refused() {
    let mut tool = TodoManagerTool::new();
    let err = tool
        .update(vec![item(PlanItemStatus::InProgress, "a", None), item(PlanItemStatus::InProgress, "b", None)])
        .unwrap_err();
    assert_eq!(err.message(), "Only one plan item can be in_progress");
    assert_eq!(tool.render(), "No session plan yet");
}

#[test]
fn markers_and_labels() {
    assert_eq!(PlanItemStatus::Pending.marker(), "[ ]");
    assert_eq!(PlanItemStatus::InProgress.marker(), "[>]");
    assert_eq!(PlanItemStatus::Completed.marker(), "[x]");
    assert_eq!(item(PlanItemStatus::Pending, "later", Some("ignored")).to_display_string(), "[ ] later");
    assert_eq!(item(PlanItemStatus::InProgress, "now", None).to_display_string(), "[>] now");
    assert_eq!(item(PlanItemStatus::InProgress, "x", None).status(), PlanItemStatus::InProgress);
}

#[test]
fn plan_items_come_from_the_input() {
    let tool = TodoManagerTool::new();
    let list = JsonValue::Array(vec![JsonValue::Null]);
    let wrapped = JsonValue::Object(vec![("items".to_string(), JsonValue::Array(vec![]))]);
    assert!(matches!(tool.items_input(&wrapped).unwrap(), JsonValue::Array(v) if v.is_empty()));
    assert!(matches!(tool.items_input(&list).unwrap(), JsonValue::Array(v) if v.len() == 1));
    let err = tool.items_input(&JsonValue::Object(vec![])).unwrap_err();
    assert_eq!(err.message(), "Invalid items");
}

fn texts_of(v: &JsonValue) -> Vec<String> {
    match v {
        JsonValue::Array(items) => items.iter().map(|i| i.as_str().unwrap().to_string()).collect(),
        _ => panic!("expected an array"),
    }
}

#[test]
fn status_names_round_trip() {
    for s in [PlanItemStatus::Pending, PlanItemStatus::InProgress, PlanItemStatus::Completed] {
        assert_eq!(PlanItemStatus::from_name(s.name()), Some(s));
    }
    assert_eq!(PlanItemStatus::from_name("in_progress"), Some(PlanItemStatus::InProgress));
    assert_eq!(PlanItemStatus::from_name("done"), None);
    assert_eq!(PlanItemStatus::from_name("Pending"), None);
}

#[test]
fn todo_description_offers_the_statuses() {
    let d = TodoManagerTool::new().tool_spec();
    assert_eq!(d.name, "todo");
    assert_eq!(d.description, "Rewrite the current session plan for multi-step work.");
    let schema = &d.input_schema;
    assert_eq!(schema.get("type").unwrap().as_str(), Some("object"));
    assert_eq!(texts_of(schema.get("required").unwrap()), vec!["items"]);
    let item = schema.get("properties").unwrap().get("items").unwrap().get("items").unwrap();
    assert_eq!(texts_of(item.get("required").unwrap()), vec!["content", "status"]);
    let status = item.get("properties").unwrap().get("status").unwrap();
    let names = texts_of(status.get("enum").unwrap());
    assert_eq!(names, vec!["pending", "in_progress", "completed"]);
    for n in &names {
        assert!(PlanItemStatus::from_name(n).is_some());
    }
    let active = item.get("properties").unwrap().get("activeForm").unwrap();
    assert_eq!(active.get("description").unwrap().as_str(), Some("Optional present-continuous label."));
}

#[test]
fn unreadable_items_keep_the_plan() {
    let mut tool = TodoManagerTool::new();
    tool.apply_items(Some(vec![item(PlanItemStatus::InProgress, "first", None)])).unwrap();
    let before = tool.render();
    let err = tool.apply_items(None).unwrap_err();
    assert!(matches!(err, ToolError::UnreadableItems));
    assert_eq!(err.message(), "deserialize plan items failed");
    assert_eq!(tool.render(), before);
    let two = vec![item(PlanItemStatus::InProgress, "a", None), item(PlanItemStatus::InProgress, "b", None)];
    assert!(matches!(tool.apply_items(Some(two)), Err(ToolError::SeveralInProgress)));
    assert_eq!(tool.render(), before);
    let text = tool.apply_items(Some(vec![item(PlanItemStatus::Completed, "done", None)])).unwrap();
    assert_eq!(text, tool.render());
}
