//! The tool that writes a whole file.
use vstd::prelude::*;

use crate::json::{members_view, JsonValue, JsonView};
use crate::text::{decimal, usize_to_decimal};
use crate::tool::{
    object_schema, object_value, push_member, required_text, text_argument, typed, typed_value,
    ToolDescription, ToolDescriptionView, ToolError,
};

verus! {

/// Writes content to a file of the workspace, creating it when needed.
pub struct WriteFileTool;

/// How the tool `write_file` presents itself to the model.
pub open spec fn write_file_description() -> ToolDescriptionView {
    ToolDescriptionView {
        name: "write_file"@,
        description: "Write content to file."@,
        input_schema: object_schema(seq![("path"@, typed("string"@)), ("content"@, typed("string"@))], seq!["path"@, "content"@]),
    }
}

impl WriteFileTool {
    /// How this tool presents itself to the model.
    pub fn tool_spec(&self) -> (r: ToolDescription)
        ensures
            r@ == write_file_description(),
    {
        let mut props: Vec<(String, JsonValue)> = Vec::new();
        push_member(&mut props, "path", typed_value("string"));
        push_member(&mut props, "content", typed_value("string"));
        assert(members_view(props@) =~= seq![("path"@, typed("string"@)), ("content"@, typed("string"@))]);
        let required: [&str; 2] = ["path", "content"];
        assert(required@.map_values(|x: &str| x@) =~= seq!["path"@, "content"@]);
        ToolDescription {
            name: String::from_str("write_file"),
            description: String::from_str("Write content to file."),
            input_schema: object_value(props, &required),
        }
    }

    /// The name the model calls this tool by.
    pub fn name(&self) -> (r: &'static str)
        ensures
            r@ == "write_file"@,
    {
        "write_file"
    }

    /// The path of the file to write.
    pub fn path(&self, input: &JsonValue) -> (r: Result<String, ToolError>)
        ensures
            match r {
                Ok(p) => text_argument(*input, "path"@) == Some(p@),
                Err(e) => text_argument(*input, "path"@) is None && e is InvalidArgument && e->InvalidArgument_0@ == "path"@,
            },
    {
        required_text(input, "path")
    }

    /// The content to write.
    pub fn content(&self, input: &JsonValue) -> (r: Result<String, ToolError>)
        ensures
            match r {
                Ok(c) => text_argument(*input, "content"@) == Some(c@),
                Err(e) => text_argument(*input, "content"@) is None && e is InvalidArgument && e->InvalidArgument_0@ == "content"@,
            },
    {
        required_text(input, "content")
    }

    /// The report on writing `content` to the file `path`: the size of the
    /// content in bytes of UTF-8, and the path.
    pub fn report(&self, content: &str, path: &str) -> (r: String)
        ensures
            r@ == "Wrote "@ + decimal((vstd::utf8::encode_utf8(content@).len() as usize) as nat) + " bytes to "@ + path@,
    {
        let mut r = String::from_str("Wrote ");
        let n = usize_to_decimal(content.len());
        r.append(n.as_str());
        r.append(" bytes to ");
        r.append(path);
        assert(r@ =~= "Wrote "@ + n@ + " bytes to "@ + path@);
        r
    }
}

} // verus!
