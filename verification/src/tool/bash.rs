//! The shell tool: which commands it refuses and how it reports their output.
use vstd::prelude::*;

use crate::json::{members_view, JsonValue, JsonView};
use crate::text::{contains_seq, contains_text, decode_lossy, lossy_utf8, take_chars, trim_text, trimmed};
use crate::tool::{
    object_schema, object_value, push_member, required_text, text_argument, typed, typed_value,
    ToolDescription, ToolDescriptionView, ToolError,
};

verus! {

/// Most characters of command output that a report keeps.
pub const OUTPUT_LIMIT: usize = 50000;

/// Seconds a command may run before it is stopped.
pub const TIMEOUT_SECS: u64 = 120;

/// Runs a shell command in the current workspace.
pub struct BashTool;

/// Whether `command` holds a pattern of a command that is never run.
pub open spec fn is_dangerous(command: Seq<char>) -> bool {
    ||| contains_seq(command, "rm -rf /"@)
    ||| contains_seq(command, "sudo"@)
    ||| contains_seq(command, "shutdown"@)
    ||| contains_seq(command, "reboot"@)
    ||| contains_seq(command, "> /dev/"@)
}

/// The report on the combined output `text` of a command: trimmed, cut to
/// `OUTPUT_LIMIT` characters, and "(no output)" when nothing is left.
pub open spec fn output_report(text: Seq<char>) -> Seq<char> {
    let t = trimmed(text);
    if t.len() == 0 {
        "(no output)"@
    } else if t.len() <= OUTPUT_LIMIT {
        t
    } else {
        t.subrange(0, OUTPUT_LIMIT as int)
    }
}

/// A report on command output never holds more than `OUTPUT_LIMIT` characters,
/// and is never empty.
pub proof fn lemma_output_report_bounded(text: Seq<char>)
    ensures
        output_report(text).len() <= OUTPUT_LIMIT,
        output_report(text).len() > 0,
{
    reveal_strlit("(no output)");
}

/// A command is refused exactly when it holds one of the patterns
/// `rm -rf /`, `sudo`, `shutdown`, `reboot` or `> /dev/`; every other command
/// runs, a redirection to an ordinary file among them.
pub proof fn lemma_refused_exactly_on_patterns(command: Seq<char>)
    ensures
        is_dangerous(command) <==> (contains_seq(command, "rm -rf /"@) || contains_seq(command, "sudo"@)
            || contains_seq(command, "shutdown"@) || contains_seq(command, "reboot"@)
            || contains_seq(command, "> /dev/"@)),
{
}

/// The report on command output opens the trimmed output: it is its first
/// characters, all of them up to `OUTPUT_LIMIT`, and the stand-in
/// "(no output)" only when nothing is left after trimming.
pub proof fn lemma_output_report_is_prefix(text: Seq<char>)
    ensures
        trimmed(text).len() == 0 ==> output_report(text) == "(no output)"@,
        trimmed(text).len() > 0 ==> {
            &&& output_report(text).len() == (if trimmed(text).len() <= OUTPUT_LIMIT {
                trimmed(text).len()
            } else {
                OUTPUT_LIMIT as nat
            })
            &&& forall|i: int| 0 <= i < output_report(text).len() ==> #[trigger] output_report(text)[i] == trimmed(text)[i]
        },
{
}

/// How the tool `bash` presents itself to the model.
pub open spec fn bash_description() -> ToolDescriptionView {
    ToolDescriptionView {
        name: "bash"@,
        description: "Run a shell command in the current workspace."@,
        input_schema: object_schema(seq![("command"@, typed("string"@))], seq!["command"@]),
    }
}

impl BashTool {
    /// How this tool presents itself to the model.
    pub fn tool_spec(&self) -> (r: ToolDescription)
        ensures
            r@ == bash_description(),
    {
        let mut props: Vec<(String, JsonValue)> = Vec::new();
        push_member(&mut props, "command", typed_value("string"));
        assert(members_view(props@) =~= seq![("command"@, typed("string"@))]);
        let required: [&str; 1] = ["command"];
        assert(required@.map_values(|x: &str| x@) =~= seq!["command"@]);
        ToolDescription {
            name: String::from_str("bash"),
            description: String::from_str("Run a shell command in the current workspace."),
            input_schema: object_value(props, &required),
        }
    }

    /// The name the model calls this tool by.
    pub fn name(&self) -> (r: &'static str)
        ensures
            r@ == "bash"@,
    {
        "bash"
    }

    /// The command to run.
    pub fn command(&self, input: &JsonValue) -> (r: Result<String, ToolError>)
        ensures
            match r {
                Ok(c) => text_argument(*input, "command"@) == Some(c@),
                Err(e) => text_argument(*input, "command"@) is None && e is InvalidArgument && e->InvalidArgument_0@ == "command"@,
            },
    {
        required_text(input, "command")
    }

    /// Refuses a command that holds a dangerous pattern.
    pub fn check_command(&self, command: &str) -> (r: Result<(), ToolError>)
        ensures
            match r {
                Ok(()) => !is_dangerous(command@),
                Err(e) => is_dangerous(command@) && e is DangerousCommand,
            },
            r is Err <==> (contains_seq(command@, "rm -rf /"@) || contains_seq(command@, "sudo"@)
                || contains_seq(command@, "shutdown"@) || contains_seq(command@, "reboot"@)
                || contains_seq(command@, "> /dev/"@)),
    {
        if contains_text(command, "rm -rf /") || contains_text(command, "sudo") || contains_text(command, "shutdown")
            || contains_text(command, "reboot") || contains_text(command, "> /dev/")
        {
            Err(ToolError::DangerousCommand)
        } else {
            Ok(())
        }
    }

    /// The text of a command's standard output followed by its standard error,
    /// decoded as `String::from_utf8_lossy` decodes; valid UTF-8 stays as it is.
    pub fn combined_output(&self, stdout: &Vec<u8>, stderr: &Vec<u8>) -> (r: String)
        ensures
            r@ == lossy_utf8(stdout@ + stderr@),
            vstd::utf8::valid_utf8(stdout@ + stderr@) ==> r@ == vstd::utf8::decode_utf8(stdout@ + stderr@),
    {
        let mut bytes: Vec<u8> = Vec::new();
        let mut i: usize = 0;
        while i < stdout.len()
            invariant
                i <= stdout@.len(),
                bytes@ == stdout@.subrange(0, i as int),
            decreases stdout@.len() - i,
        {
            bytes.push(stdout[i]);
            i = i + 1;
            assert(bytes@ =~= stdout@.subrange(0, i as int));
        }
        let mut j: usize = 0;
        while j < stderr.len()
            invariant
                i == stdout@.len(),
                j <= stderr@.len(),
                bytes@ == stdout@ + stderr@.subrange(0, j as int),
            decreases stderr@.len() - j,
        {
            bytes.push(stderr[j]);
            j = j + 1;
            assert(bytes@ =~= stdout@ + stderr@.subrange(0, j as int));
        }
        assert(stdout@.subrange(0, stdout@.len() as int) =~= stdout@);
        assert(stderr@.subrange(0, stderr@.len() as int) =~= stderr@);
        decode_lossy(bytes.as_slice())
    }

    /// The report on a command whose combined output is `text`.
    pub fn report(&self, text: &str) -> (r: String)
        ensures
            r@ == output_report(text@),
            trimmed(text@).len() > 0 ==> r@.len() == (if trimmed(text@).len() <= OUTPUT_LIMIT {
                trimmed(text@).len()
            } else {
                OUTPUT_LIMIT as nat
            }) && r@ == trimmed(text@).subrange(0, r@.len() as int),
            trimmed(text@).len() == 0 ==> r@ == "(no output)"@,
    {
        let t = trim_text(text);
        if t.is_empty() {
            String::from_str("(no output)")
        } else {
            take_chars(t, OUTPUT_LIMIT)
        }
    }

    /// The reason given when a command runs past its time.
    pub fn timeout_error(&self) -> (r: ToolError)
        ensures
            r is Failed && r->Failed_0@ == "Timeout (120s)"@,
    {
        ToolError::Failed(String::from_str("Timeout (120s)"))
    }
}

} // verus!
