//! The tool that starts a shell command in the background.
use vstd::prelude::*;

use crate::json::JsonValue;
use crate::tool::{required_text, text_argument, ToolError};

verus! {

/// Starts a shell command in the background through the manager `M`, which
/// answers with the id of the new task.
pub struct RunBackgroundTool<M> {
    manager: M,
}

impl<M> RunBackgroundTool<M> {
    /// The manager that runs the commands.
    pub closed spec fn spec_manager(&self) -> M {
        self.manager
    }

    /// A tool that runs its commands through `manager`.
    pub fn new(manager: M) -> (r: Self)
        ensures
            r.spec_manager() == manager,
    {
        RunBackgroundTool { manager }
    }

    /// The manager that runs the commands.
    pub fn manager(&self) -> (r: &M)
        ensures
            *r == self.spec_manager(),
    {
        &self.manager
    }

    /// The name the model calls this tool by.
    pub fn name(&self) -> (r: &'static str)
        ensures
            r@ == "run_background"@,
    {
        "run_background"
    }

    /// The command to start.
    pub fn command(&self, input: &JsonValue) -> (r: Result<String, ToolError>)
        ensures
            match r {
                Ok(c) => text_argument(*input, "command"@) == Some(c@),
                Err(e) => text_argument(*input, "command"@) is None && e is InvalidArgument && e->InvalidArgument_0@ == "command"@,
            },
    {
        required_text(input, "command")
    }
}

} // verus!
