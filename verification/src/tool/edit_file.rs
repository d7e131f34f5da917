//! The tool that replaces exact text in a file.
use vstd::prelude::*;

use crate::json::{members_view, JsonValue, JsonView};
use crate::text::{contains_seq, contains_text, replace_first, replaced_first};
use crate::tool::{
    concat_str, object_schema, object_value, push_member, required_text, text_argument, typed,
    typed_value, ToolDescription, ToolDescriptionView, ToolError,
};

verus! {

/// Replaces the first occurrence of some text in a file of the workspace.
pub struct EditFileTool;

/// How the tool `edit_file` presents itself to the model.
pub open spec fn edit_file_description() -> ToolDescriptionView {
    ToolDescriptionView {
        name: "edit_file"@,
        description: "Replace exact text in file."@,
        input_schema: object_schema(seq![("path"@, typed("string"@)), ("old_text"@, typed("string"@)), ("new_text"@, typed("string"@))], seq!["path"@, "old_text"@, "new_text"@]),
    }
}

impl EditFileTool {
    /// How this tool presents itself to the model.
    pub fn tool_spec(&self) -> (r: ToolDescription)
        ensures
            r@ == edit_file_description(),
    {
        let mut props: Vec<(String, JsonValue)> = Vec::new();
        push_member(&mut props, "path", typed_value("string"));
        push_member(&mut props, "old_text", typed_value("string"));
        push_member(&mut props, "new_text", typed_value("string"));
        assert(members_view(props@) =~= seq![("path"@, typed("string"@)), ("old_text"@, typed("string"@)), ("new_text"@, typed("string"@))]);
        let required: [&str; 3] = ["path", "old_text", "new_text"];
        assert(required@.map_values(|x: &str| x@) =~= seq!["path"@, "old_text"@, "new_text"@]);
        ToolDescription {
            name: String::from_str("edit_file"),
            description: String::from_str("Replace exact text in file."),
            input_schema: object_value(props, &required),
        }
    }

    /// The name the model calls this tool by.
    pub fn name(&self) -> (r: &'static str)
        ensures
            r@ == "edit_file"@,
    {
        "edit_file"
    }

    /// The path of the file to edit.
    pub fn path(&self, input: &JsonValue) -> (r: Result<String, ToolError>)
        ensures
            match r {
                Ok(p) => text_argument(*input, "path"@) == Some(p@),
                Err(e) => text_argument(*input, "path"@) is None && e is InvalidArgument && e->InvalidArgument_0@ == "path"@,
            },
    {
        required_text(input, "path")
    }

    /// The text to replace.
    pub fn old_text(&self, input: &JsonValue) -> (r: Result<String, ToolError>)
        ensures
            match r {
                Ok(t) => text_argument(*input, "old_text"@) == Some(t@),
                Err(e) => text_argument(*input, "old_text"@) is None && e is InvalidArgument && e->InvalidArgument_0@ == "old_text"@,
            },
    {
        required_text(input, "old_text")
    }

    /// The text to put in its place.
    pub fn new_text(&self, input: &JsonValue) -> (r: Result<String, ToolError>)
        ensures
            match r {
                Ok(t) => text_argument(*input, "new_text"@) == Some(t@),
                Err(e) => text_argument(*input, "new_text"@) is None && e is InvalidArgument && e->InvalidArgument_0@ == "new_text"@,
            },
    {
        required_text(input, "new_text")
    }

    /// The new content of the file `path`, whose content is `content`: its
    /// first occurrence of `old_text` replaced by `new_text`.  Fails when
    /// `old_text` does not occur.
    pub fn apply(&self, content: &str, old_text: &str, new_text: &str, path: &str) -> (r: Result<String, ToolError>)
        ensures
            match r {
                Ok(updated) => contains_seq(content@, old_text@) && updated@ == replaced_first(content@, old_text@, new_text@),
                Err(e) => !contains_seq(content@, old_text@) && e is TextNotFound && e->TextNotFound_0@ == path@,
            },
    {
        if !contains_text(content, old_text) {
            return Err(ToolError::TextNotFound(String::from_str(path)));
        }
        Ok(replace_first(content, old_text, new_text))
    }

    /// The report on an edit of the file `path`.
    pub fn report(&self, path: &str) -> (r: String)
        ensures
            r@ == "Edited "@ + path@,
    {
        concat_str("Edited ", path)
    }
}

} // verus!
