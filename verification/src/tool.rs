//! What the tools decide on their own: which arguments they accept, when they
//! refuse, and the text they report back.  Running commands and touching files
//! is left to the caller.
pub mod bash;
pub mod edit_file;
pub mod read_file;
pub mod run_background;
pub mod sub_agent;
pub mod task_create;
pub mod task_get;
pub mod task_list;
pub mod todo;
pub mod workspace;
pub mod write_file;

use vstd::prelude::*;

use crate::json::{items_view, json_view, members_view, JsonValue, JsonView};

verus! {

/// Why a tool gave no result.
#[derive(Debug)]
pub enum ToolError {
    /// The argument of this name is missing or has the wrong type.
    InvalidArgument(String),
    /// The command matches a pattern that is never run.
    DangerousCommand,
    /// The text to replace does not occur in the file of this name.
    TextNotFound(String),
    /// The session plan has too many items.
    PlanTooLong,
    /// More than one plan item is in progress.
    SeveralInProgress,
    /// The plan has no list of items.
    InvalidItems,
    /// The list of plan items could not be read as plan items.
    UnreadableItems,
    /// An operation failed for this reason.
    Failed(String),
}

/// The message that reports error `e`.
pub open spec fn error_text(e: ToolError) -> Seq<char> {
    match e {
        ToolError::InvalidArgument(name) => "Invalid "@ + name@,
        ToolError::DangerousCommand => "Error: Dangerous command blocked"@,
        ToolError::TextNotFound(path) => "Error: Text not found in "@ + path@,
        ToolError::PlanTooLong => "Keep the session plan short (max 12 items)"@,
        ToolError::SeveralInProgress => "Only one plan item can be in_progress"@,
        ToolError::InvalidItems => "Invalid items"@,
        ToolError::UnreadableItems => "deserialize plan items failed"@,
        ToolError::Failed(reason) => "Error: "@ + reason@,
    }
}

/// `prefix` followed by `rest`, as a new string.
pub fn concat_str(prefix: &str, rest: &str) -> (r: String)
    ensures
        r@ == prefix@ + rest@,
{
    let mut r = String::from_str(prefix);
    r.append(rest);
    r
}

impl ToolError {
    /// The message that reports this error.
    pub fn message(&self) -> (r: String)
        ensures
            r@ == error_text(*self),
    {
        match self {
            ToolError::InvalidArgument(name) => concat_str("Invalid ", name.as_str()),
            ToolError::DangerousCommand => String::from_str("Error: Dangerous command blocked"),
            ToolError::TextNotFound(path) => concat_str("Error: Text not found in ", path.as_str()),
            ToolError::PlanTooLong => String::from_str("Keep the session plan short (max 12 items)"),
            ToolError::SeveralInProgress => String::from_str("Only one plan item can be in_progress"),
            ToolError::InvalidItems => String::from_str("Invalid items"),
            ToolError::UnreadableItems => String::from_str("deserialize plan items failed"),
            ToolError::Failed(reason) => concat_str("Error: ", reason.as_str()),
        }
    }
}

/// The text stored under `key` in the object `input`.
pub open spec fn text_argument(input: JsonValue, key: Seq<char>) -> Option<Seq<char>> {
    match input.spec_get(key) {
        Some(v) => v.text_of(),
        None => None,
    }
}

/// The non-negative integer stored under `key` in the object `input`.
pub open spec fn u64_argument(input: JsonValue, key: Seq<char>) -> Option<u64> {
    match input.spec_get(key) {
        Some(JsonValue::Number(crate::json::JsonNumber::PosInt(n))) => Some(n),
        _ => None,
    }
}

/// The text argument `key` of `input`, which must be there.
pub fn required_text(input: &JsonValue, key: &str) -> (r: Result<String, ToolError>)
    ensures
        match r {
            Ok(s) => text_argument(*input, key@) == Some(s@),
            Err(e) => text_argument(*input, key@) is None && e is InvalidArgument && e->InvalidArgument_0@ == key@,
        },
{
    match optional_text(input, key) {
        Some(s) => Ok(s),
        None => Err(ToolError::InvalidArgument(String::from_str(key))),
    }
}

/// The text argument `key` of `input`, if it is there.
pub fn optional_text(input: &JsonValue, key: &str) -> (r: Option<String>)
    ensures
        match r {
            Some(s) => text_argument(*input, key@) == Some(s@),
            None => text_argument(*input, key@) is None,
        },
{
    match input.get(key) {
        Some(v) => match v.as_str() {
            Some(s) => Some(s.to_owned()),
            None => None,
        },
        None => None,
    }
}

/// The non-negative integer argument `key` of `input`, if it is there.
pub fn optional_u64(input: &JsonValue, key: &str) -> (r: Option<u64>)
    ensures
        r == u64_argument(*input, key@),
{
    match input.get(key) {
        Some(v) => v.as_u64(),
        None => None,
    }
}


/// How a tool presents itself to the model: its name, what it does, and the
/// JSON schema of its input.
#[derive(Debug)]
pub struct ToolDescription {
    pub name: String,
    pub description: String,
    pub input_schema: JsonValue,
}

/// The content of a `ToolDescription`.
pub struct ToolDescriptionView {
    pub name: Seq<char>,
    pub description: Seq<char>,
    pub input_schema: JsonView,
}

impl View for ToolDescription {
    type V = ToolDescriptionView;

    open spec fn view(&self) -> ToolDescriptionView {
        ToolDescriptionView { name: self.name@, description: self.description@, input_schema: self.input_schema@ }
    }
}

/// The schema of a value of JSON type `t`.
pub open spec fn typed(t: Seq<char>) -> JsonView {
    JsonView::Object(seq![("type"@, JsonView::Text(t))])
}

/// The schema of a value of JSON type `t`, with a description `d`.
pub open spec fn described(t: Seq<char>, d: Seq<char>) -> JsonView {
    JsonView::Object(seq![("type"@, JsonView::Text(t)), ("description"@, JsonView::Text(d))])
}

/// JSON texts, one for each of `s`.
pub open spec fn texts(s: Seq<Seq<char>>) -> Seq<JsonView> {
    s.map_values(|t: Seq<char>| JsonView::Text(t))
}

/// The schema of an object with the members `props`, of which those named in
/// `required` must be given.
pub open spec fn object_schema(props: Seq<(Seq<char>, JsonView)>, required: Seq<Seq<char>>) -> JsonView {
    JsonView::Object(seq![
        ("type"@, JsonView::Text("object"@)),
        ("properties"@, JsonView::Object(props)),
        ("required"@, JsonView::Array(texts(required))),
    ])
}

/// Appends the member `key` with `value` to the members of an object.
pub fn push_member(entries: &mut Vec<(String, JsonValue)>, key: &str, value: JsonValue)
    ensures
        members_view(final(entries)@) == members_view(old(entries)@).push((key@, value@)),
{
    let ghost before = entries@;
    entries.push((String::from_str(key), value));
    assert(entries@.subrange(0, entries@.len() - 1) =~= before);
}

/// Appends `value` to the items of an array.
pub fn push_item(items: &mut Vec<JsonValue>, value: JsonValue)
    ensures
        items_view(final(items)@) == items_view(old(items)@).push(value@),
{
    let ghost before = items@;
    items.push(value);
    assert(items@.subrange(0, items@.len() - 1) =~= before);
}

/// The JSON texts `names`, as an array.
pub fn text_array(names: &[&str]) -> (r: JsonValue)
    ensures
        r@ == JsonView::Array(texts(names@.map_values(|n: &str| n@))),
{
    let mut items: Vec<JsonValue> = Vec::new();
    let ghost want = texts(names@.map_values(|n: &str| n@));
    let mut i: usize = 0;
    assert(items_view(items@) =~= want.subrange(0, 0));
    while i < names.len()
        invariant
            i <= names@.len(),
            want == texts(names@.map_values(|n: &str| n@)),
            want.len() == names@.len(),
            items_view(items@) == want.subrange(0, i as int),
        decreases names@.len() - i,
    {
        push_item(&mut items, JsonValue::Text(String::from_str(names[i])));
        i = i + 1;
        assert(items_view(items@) =~= want.subrange(0, i as int));
    }
    assert(want.subrange(0, names@.len() as int) =~= want);
    JsonValue::Array(items)
}

/// The schema of a value of JSON type `t`.
pub fn typed_value(t: &str) -> (r: JsonValue)
    ensures
        r@ == typed(t@),
{
    let mut m: Vec<(String, JsonValue)> = Vec::new();
    push_member(&mut m, "type", JsonValue::Text(String::from_str(t)));
    assert(members_view(m@) =~= seq![("type"@, JsonView::Text(t@))]);
    JsonValue::Object(m)
}

/// The schema of a value of JSON type `t`, with a description `d`.
pub fn described_value(t: &str, d: &str) -> (r: JsonValue)
    ensures
        r@ == described(t@, d@),
{
    let mut m: Vec<(String, JsonValue)> = Vec::new();
    push_member(&mut m, "type", JsonValue::Text(String::from_str(t)));
    push_member(&mut m, "description", JsonValue::Text(String::from_str(d)));
    assert(members_view(m@) =~= seq![("type"@, JsonView::Text(t@)), ("description"@, JsonView::Text(d@))]);
    JsonValue::Object(m)
}

/// The schema of an object with the members `props`, of which those named in
/// `required` must be given.
pub fn object_value(props: Vec<(String, JsonValue)>, required: &[&str]) -> (r: JsonValue)
    ensures
        r@ == object_schema(members_view(props@), required@.map_values(|n: &str| n@)),
{
    let ghost pv = members_view(props@);
    let mut m: Vec<(String, JsonValue)> = Vec::new();
    push_member(&mut m, "type", JsonValue::Text(String::from_str("object")));
    push_member(&mut m, "properties", JsonValue::Object(props));
    push_member(&mut m, "required", text_array(required));
    assert(members_view(m@) =~= seq![
        ("type"@, JsonView::Text("object"@)),
        ("properties"@, JsonView::Object(pv)),
        ("required"@, JsonView::Array(texts(required@.map_values(|n: &str| n@)))),
    ]);
    JsonValue::Object(m)
}

/// Every tool presents itself to the model under the name that it answers
/// to (the name that its `name` method gives).
pub proof fn lemma_descriptions_name_their_tools()
    ensures
        bash::bash_description().name == "bash"@,
        edit_file::edit_file_description().name == "edit_file"@,
        read_file::read_file_description().name == "read_file"@,
        write_file::write_file_description().name == "write_file"@,
        todo::todo_description().name == "todo"@,
        sub_agent::task_description().name == "task"@,
{
}

} // verus!
