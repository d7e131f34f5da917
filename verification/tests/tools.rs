use demo_cc::json::{JsonNumber, JsonValue};
use demo_cc::tool::bash::BashTool;
use demo_cc::tool::edit_file::EditFileTool;
use demo_cc::tool::read_file::ReadFileTool;
use demo_cc::tool::run_background::RunBackgroundTool;
use demo_cc::tool::sub_agent::SubAgentTool;
use demo_cc::tool::task_create::TaskCreateTool;
use demo_cc::tool::task_get::TaskGetTool;
use demo_cc::tool::task_list::TaskListTool;
use demo_cc::tool::workspace::{new_path_within, path_within};
use demo_cc::tool::write_file::WriteFileTool;
use demo_cc::tool::ToolError;

fn object(members: Vec<(&str, JsonValue)>) -> JsonValue {
    JsonValue::Object(members.into_iter().map(|(k, v)| (k.to_string(), v)).collect())
}

fn text(t: &str) -> JsonValue {
    JsonValue::Text(t.to_string())
}

#[test]
fn bash_takes_a_command() {
    let tool = BashTool;
    assert_eq!(tool.name(), "bash");
    assert_eq!(tool.command(&object(vec![("command", text("ls -l"))])).unwrap(), "ls -l");
    let err = tool.command(&object(vec![("command", JsonValue::Bool(true))])).unwrap_err();
    assert_eq!(err.message(), "Invalid command");
    assert_eq!(tool.command(&text("ls")).unwrap_err().message(), "Invalid command");
}

#[test]
fn bash_refuses_dangerous_commands() {
    let tool = BashTool;
    for c in ["sudo ls", "rm -rf / --no-preserve-root", "shutdown now", "echo x; reboot", "cat a > /dev/sda"] {
        let err = tool.check_command(c).unwrap_err();
        assert!(matches!(err, ToolError::DangerousCommand));
        assert_eq!(err.message(), "Error: Dangerous command blocked");
    }
    assert!(tool.check_command("ls -la /tmp").is_ok());
    assert!(tool.check_command("rm -rf ./build").is_ok());
}

#[test]
fn bash_reports_output() {
    let tool = BashTool;
    assert_eq!(tool.report("  \n\t "), "(no output)");
    assert_eq!(tool.report("\n  hello world \n"), "hello world");
    let long = "é".repeat(60000);
    let cut = tool.report(&long);
    assert_eq!(cut.chars().count(), 50000);
    assert_eq!(tool.combined_output(&b"out\n".to_vec(), &b"err".to_vec()), "out\nerr");
    assert_eq!(tool.combined_output(&vec![0x66, 0xff], &vec![]), "f\u{fffd}");
    assert_eq!(tool.timeout_error().message(), "Error: Timeout (120s)");
}

#[test]
fn edit_replaces_the_first_occurrence() {
    let tool = EditFileTool;
    assert_eq!(tool.name(), "edit_file");
    assert_eq!(tool.apply("a b a b", "b", "X", "f.txt").unwrap(), "a X a b");
    assert_eq!(tool.apply("abc", "", "-", "f.txt").unwrap(), "-abc");
    let err = tool.apply("abc", "zzz", "y", "notes/f.txt").unwrap_err();
    assert_eq!(err.message(), "Error: Text not found in notes/f.txt");
    assert_eq!(tool.report("notes/f.txt"), "Edited notes/f.txt");
}

#[test]
fn edit_arguments() {
    let tool = EditFileTool;
    let input = object(vec![("path", text("p")), ("old_text", text("o")), ("new_text", JsonValue::Null)]);
    assert_eq!(tool.path(&input).unwrap(), "p");
    assert_eq!(tool.old_text(&input).unwrap(), "o");
    assert_eq!(tool.new_text(&input).unwrap_err().message(), "Invalid new_text");
    assert_eq!(tool.path(&object(vec![])).unwrap_err().message(), "Invalid path");
}

#[test]
fn read_report_limits_lines() {
    let tool = ReadFileTool;
    assert_eq!(tool.name(), "read_file");
    assert_eq!(tool.report("a\nb\nc\nd\n", Some(2)), "a\nb\n... (2 more lines)");
    assert_eq!(tool.report("a\r\nb\n", None), "a\nb");
    assert_eq!(tool.report("a\nb", Some(5)), "a\nb");
    assert_eq!(tool.report("a\nb", Some(2)), "a\nb");
    assert_eq!(tool.report("", None), "");
    assert_eq!(tool.report("x\n\ny", Some(0)), "... (3 more lines)");
    let big = "z".repeat(70000);
    assert_eq!(tool.report(&big, None).len(), 50000);
}

#[test]
fn read_arguments() {
    let tool = ReadFileTool;
    let input = object(vec![("path", text("src/main.rs")), ("limit", JsonValue::Number(JsonNumber::PosInt(7)))]);
    assert_eq!(tool.path(&input).unwrap(), "src/main.rs");
    assert_eq!(tool.limit(&input), Some(7));
    assert_eq!(tool.limit(&object(vec![("limit", JsonValue::Number(JsonNumber::NegInt(-1)))])), None);
    assert_eq!(tool.limit(&object(vec![("limit", text("7"))])), None);
}

#[test]
fn write_reports_bytes() {
    let tool = WriteFileTool;
    assert_eq!(tool.name(), "write_file");
    assert_eq!(tool.report("héllo", "out/a.txt"), "Wrote 6 bytes to out/a.txt");
    assert_eq!(tool.report("", "e"), "Wrote 0 bytes to e");
    let input = object(vec![("path", text("a")), ("content", text("body"))]);
    assert_eq!(tool.content(&input).unwrap(), "body");
    assert_eq!(tool.content(&object(vec![("path", text("a"))])).unwrap_err().message(), "Invalid content");
    assert_eq!(tool.path(&input).unwrap(), "a");
}

#[test]
fn task_tools_read_their_arguments() {
    let create = TaskCreateTool::new(1u8);
    assert_eq!(*create.manager(), 1u8);
    assert_eq!(create.name(), "task_create");
    let input = object(vec![("subject", text("ship it")), ("description", text("  all of it \n"))]);
    assert_eq!(create.subject(&input).unwrap(), "ship it");
    assert_eq!(create.description(&input), Some("all of it".to_string()));
    assert_eq!(create.description(&object(vec![("description", text("   "))])), None);
    assert_eq!(create.subject(&object(vec![])).unwrap_err().message(), "Invalid subject");

    let get = TaskGetTool::new("m");
    assert_eq!(get.name(), "task_get");
    assert_eq!(*get.manager(), "m");
    assert_eq!(get.task_id(&object(vec![("task_id", JsonValue::Number(JsonNumber::PosInt(42)))])).unwrap(), 42);
    assert_eq!(get.task_id(&object(vec![("task_id", text("42"))])).unwrap_err().message(), "Invalid task_id");

    let list = TaskListTool::new(());
    assert_eq!(list.name(), "task_list");
    assert_eq!(*list.manager(), ());

    let background = RunBackgroundTool::new(5u32);
    assert_eq!(background.name(), "run_background");
    assert_eq!(*background.manager(), 5u32);
    assert_eq!(background.command(&object(vec![("command", text("sleep 1"))])).unwrap(), "sleep 1");
}

#[test]
fn sub_agent_reads_its_prompt() {
    let tool = SubAgentTool::new("skills", 3u8);
    assert_eq!(tool.name(), "task");
    assert_eq!(*tool.registry(), "skills");
    assert_eq!(*tool.memory_manager(), 3u8);
    let input = object(vec![("prompt", text("count files")), ("description", text("count"))]);
    assert_eq!(tool.prompt(&input).unwrap(), "count files");
    assert_eq!(tool.description(&input), Some("count".to_string()));
    assert_eq!(tool.announcement("count files", &Some("count".to_string())), "> task - (count): count files");
    assert_eq!(tool.announcement("p", &None), "> task - (): p");
    assert_eq!(tool.prompt(&object(vec![])).unwrap_err().message(), "Invalid prompt");
}

#[test]
fn error_messages() {
    assert_eq!(ToolError::PlanTooLong.message(), "Keep the session plan short (max 12 items)");
    assert_eq!(ToolError::SeveralInProgress.message(), "Only one plan item can be in_progress");
    assert_eq!(ToolError::InvalidItems.message(), "Invalid items");
    assert_eq!(ToolError::Failed("disk full".to_string()).message(), "Error: disk full");
}

fn names_in(v: &JsonValue) -> Vec<String> {
    match v {
        JsonValue::Array(items) => items.iter().map(|i| i.as_str().unwrap().to_string()).collect(),
        _ => panic!("expected an array"),
    }
}

#[test]
fn descriptions_name_their_tools() {
    let bash = BashTool.tool_spec();
    assert_eq!(bash.name, BashTool.name());
    assert_eq!(bash.description, "Run a shell command in the current workspace.");
    assert_eq!(names_in(bash.input_schema.get("required").unwrap()), vec!["command"]);
    let cmd = bash.input_schema.get("properties").unwrap().get("command").unwrap();
    assert_eq!(cmd.get("type").unwrap().as_str(), Some("string"));
    let edit = EditFileTool.tool_spec();
    assert_eq!(edit.name, EditFileTool.name());
    assert_eq!(names_in(edit.input_schema.get("required").unwrap()), vec!["path", "old_text", "new_text"]);
    let read = ReadFileTool.tool_spec();
    assert_eq!(read.name, ReadFileTool.name());
    let limit = read.input_schema.get("properties").unwrap().get("limit").unwrap();
    assert_eq!(limit.get("type").unwrap().as_str(), Some("integer"));
    assert_eq!(names_in(read.input_schema.get("required").unwrap()), vec!["path"]);
    let write = WriteFileTool.tool_spec();
    assert_eq!(write.name, WriteFileTool.name());
    assert_eq!(names_in(write.input_schema.get("required").unwrap()), vec!["path", "content"]);
    let task = SubAgentTool::new((), ()).tool_spec();
    assert_eq!(task.name, "task");
    let desc = task.input_schema.get("properties").unwrap().get("description").unwrap();
    assert_eq!(desc.get("description").unwrap().as_str(), Some("Short description of the task"));
    assert_eq!(names_in(task.input_schema.get("required").unwrap()), vec!["prompt"]);
}

fn parts(p: &[&str]) -> Vec<String> {
    p.iter().map(|s| s.to_string()).collect()
}

#[test]
fn paths_stay_in_the_workspace() {
    let base = parts(&["/", "home", "me", "proj"]);
    assert!(path_within(&base, &parts(&["/", "home", "me", "proj"])));
    assert!(path_within(&base, &parts(&["/", "home", "me", "proj", "src", "main.rs"])));
    assert!(!path_within(&base, &parts(&["/", "home", "me"])));
    assert!(!path_within(&base, &parts(&["/", "home", "me", "project", "a"])));
    assert!(!path_within(&base, &parts(&["/", "etc", "passwd"])));
    assert!(new_path_within(&base, &parts(&["/", "home", "me", "proj"]), &parts(&["new", "file.txt"])));
    assert!(!new_path_within(&base, &parts(&["/", "home", "me", "proj"]), &parts(&["..", "x"])));
    assert!(!new_path_within(&base, &parts(&["/", "home", "me", "proj"]), &parts(&["a", "."])));
    assert!(!new_path_within(&base, &parts(&["/", "tmp"]), &parts(&["x"])));
    assert!(new_path_within(&base, &parts(&["/", "home", "me"]), &parts(&["proj", "x"])));
}
