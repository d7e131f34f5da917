//! The tool that reads a file.
use vstd::prelude::*;

use crate::json::{members_view, JsonValue, JsonView};
use crate::text::{
    decimal, join_lines, join_with_newlines, lines_of, strings_view, take_chars, text_lines,
    usize_to_decimal,
};
use crate::tool::{
    concat_str, object_schema, object_value, optional_u64, push_member, required_text,
    text_argument, typed, typed_value, u64_argument, ToolDescription, ToolDescriptionView, ToolError,
};

verus! {

/// Most characters of file content that a report keeps.
pub const CONTENT_LIMIT: usize = 50000;

/// Reads the content of a file of the workspace.
pub struct ReadFileTool;

/// The note that stands for `n` lines left out.
pub open spec fn more_lines_note(n: nat) -> Seq<char> {
    "... ("@ + decimal(n) + " more lines)"@
}

/// The lines shown of a file with lines `lines`: at most `limit` of them,
/// followed by a note on how many were left out.
pub open spec fn shown_lines(lines: Seq<Seq<char>>, limit: Option<u64>) -> Seq<Seq<char>> {
    match limit {
        Some(l) => if (l as int) < lines.len() {
            lines.subrange(0, l as int).push(more_lines_note((lines.len() - l) as nat))
        } else {
            lines
        },
        None => lines,
    }
}

/// The report on a file with content `content`: its shown lines, one per
/// line, cut to `CONTENT_LIMIT` characters.
pub open spec fn file_report(content: Seq<char>, limit: Option<u64>) -> Seq<char> {
    let t = join_lines(shown_lines(lines_of(content), limit));
    if t.len() <= CONTENT_LIMIT {
        t
    } else {
        t.subrange(0, CONTENT_LIMIT as int)
    }
}

/// A report on a file never holds more than `CONTENT_LIMIT` characters, and
/// shows at most `limit` lines of the file and one note.
pub proof fn lemma_file_report_bounded(content: Seq<char>, limit: Option<u64>)
    ensures
        file_report(content, limit).len() <= CONTENT_LIMIT,
        limit matches Some(l) ==> shown_lines(lines_of(content), limit).len() <= l + 1,
{
}

/// The report on a file opens the text of its shown lines, one per line: it
/// is the first characters of that text, all of them up to `CONTENT_LIMIT`.
/// The lines shown are the file's first lines, all of them unless `limit` is
/// smaller than their number; then a note on how many were left out follows.
pub proof fn lemma_file_report_is_prefix(content: Seq<char>, limit: Option<u64>)
    ensures
        ({
            let t = join_lines(shown_lines(lines_of(content), limit));
            &&& file_report(content, limit).len() == (if t.len() <= CONTENT_LIMIT { t.len() } else { CONTENT_LIMIT as nat })
            &&& forall|i: int| 0 <= i < file_report(content, limit).len() ==> #[trigger] file_report(content, limit)[i] == t[i]
        }),
        ({
            let lines = lines_of(content);
            let shown = shown_lines(lines, limit);
            match limit {
                Some(l) if (l as int) < lines.len() => {
                    &&& shown.len() == l + 1
                    &&& forall|i: int| 0 <= i < l ==> #[trigger] shown[i] == lines[i]
                    &&& shown[l as int] == "... ("@ + decimal((lines.len() - l) as nat) + " more lines)"@
                },
                _ => shown == lines,
            }
        }),
{
}

/// How the tool `read_file` presents itself to the model.
pub open spec fn read_file_description() -> ToolDescriptionView {
    ToolDescriptionView {
        name: "read_file"@,
        description: "Read file contents."@,
        input_schema: object_schema(seq![("path"@, typed("string"@)), ("limit"@, typed("integer"@))], seq!["path"@]),
    }
}

impl ReadFileTool {
    /// How this tool presents itself to the model.
    pub fn tool_spec(&self) -> (r: ToolDescription)
        ensures
            r@ == read_file_description(),
    {
        let mut props: Vec<(String, JsonValue)> = Vec::new();
        push_member(&mut props, "path", typed_value("string"));
        push_member(&mut props, "limit", typed_value("integer"));
        assert(members_view(props@) =~= seq![("path"@, typed("string"@)), ("limit"@, typed("integer"@))]);
        let required: [&str; 1] = ["path"];
        assert(required@.map_values(|x: &str| x@) =~= seq!["path"@]);
        ToolDescription {
            name: String::from_str("read_file"),
            description: String::from_str("Read file contents."),
            input_schema: object_value(props, &required),
        }
    }

    /// The name the model calls this tool by.
    pub fn name(&self) -> (r: &'static str)
        ensures
            r@ == "read_file"@,
    {
        "read_file"
    }

    /// The path of the file to read.
    pub fn path(&self, input: &JsonValue) -> (r: Result<String, ToolError>)
        ensures
            match r {
                Ok(p) => text_argument(*input, "path"@) == Some(p@),
                Err(e) => text_argument(*input, "path"@) is None && e is InvalidArgument && e->InvalidArgument_0@ == "path"@,
            },
    {
        required_text(input, "path")
    }

    /// The most lines to show, if the input sets it.
    pub fn limit(&self, input: &JsonValue) -> (r: Option<u64>)
        ensures
            r == u64_argument(*input, "limit"@),
    {
        optional_u64(input, "limit")
    }

    /// The report on a file with content `content`.
    pub fn report(&self, content: &str, limit: Option<u64>) -> (r: String)
        ensures
            r@ == file_report(content@, limit),
            ({
                let t = join_lines(shown_lines(lines_of(content@), limit));
                r@.len() == (if t.len() <= CONTENT_LIMIT { t.len() } else { CONTENT_LIMIT as nat })
                    && r@ == t.subrange(0, r@.len() as int)
            }),
    {
        let mut lines = text_lines(content);
        let ghost all = strings_view(lines@);
        let n = lines.len();
        match limit {
            Some(l) => {
                if l < n as u64 {
                    let keep = l as usize;
                    let remaining = n - keep;
                    lines.truncate(keep);
                    let count = usize_to_decimal(remaining);
                    let head = concat_str("... (", count.as_str());
                    let note = concat_str(head.as_str(), " more lines)");
                    let ghost kept = lines@;
                    lines.push(note);
                    assert(strings_view(lines@) =~= all.subrange(0, l as int).push(more_lines_note((all.len() - l) as nat)));
                }
            },
            None => {},
        }
        let text = join_with_newlines(&lines);
        take_chars(text.as_str(), CONTENT_LIMIT)
    }
}

} // verus!
